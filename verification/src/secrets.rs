//! Secret retrieval and the scoped secret store.
//!
//! A value referenced from `action_config.auth` is either inline text or a
//! reference into the OS credential manager: [`resolve`]. The scoped secret
//! store behind `get_secret` and `set_secret` encrypts every value with a
//! 32-byte key that the calling action holds in its own `action_config.secrets`,
//! so that reading a secret back takes both the entry and the matching key.

use vstd::prelude::*;
use vstd::string::*;
use vstd::utf8::*;

use aes_gcm::aead::{Aead, AeadCore, KeyInit, OsRng};
use aes_gcm::{Aes256Gcm, Key, Nonce};

use crate::encoding::{base64_decoded, decode_base64, encode_base64, from_utf8, utf8_error};
use crate::json::{json_text, to_text};
use crate::text::{cat2, cat3, cat5, decimal, print_u64, same};
use crate::value::{members, Json, Value};

verus! {

broadcast use crate::value::group_value_views;

/// A reference into the OS credential manager: a namespace and the identifier
/// within it.
#[derive(Debug, Clone, PartialEq, Eq)]
pub struct KeyringRef {
    pub keyring_service: String,
    pub keyring_account: String,
}

/// What looking an entry up in the OS credential manager came to.
#[derive(Debug)]
pub enum KeyringLookup {
    Found(String),
    OpenFailed(String),
    ReadFailed(String),
}

pub open spec fn text_result(r: Result<String, String>) -> Result<Seq<char>, Seq<char>> {
    match r {
        Ok(s) => Ok(s@),
        Err(e) => Err(e@),
    }
}

// ── Shapes ───────────────────────────────────────────────────────────────────

/// The name of a value's JSON type.
pub open spec fn json_type(v: Json) -> Seq<char> {
    match v {
        Json::Null => "null"@,
        Json::Bool(_) => "boolean"@,
        Json::UInt(_) => "number"@,
        Json::NegInt(_) => "number"@,
        Json::Float(_) => "number"@,
        Json::Str(_) => "string"@,
        Json::Array(_) => "array"@,
        Json::Object(_) => "object"@,
    }
}

/// The name of a value's JSON type, to describe a malformed field.
pub fn type_name_of(v: &Value) -> (r: &'static str)
    ensures
        r@ == json_type(v@),
{
    match v {
        Value::Null => "null",
        Value::Bool(_) => "boolean",
        Value::UInt(_) => "number",
        Value::NegInt(_) => "number",
        Value::Float(_) => "number",
        Value::Str(_) => "string",
        Value::Array(_) => "array",
        Value::Object(_) => "object",
    }
}

/// How a value that stands where a string is expected is described.
pub open spec fn unexpected(v: Json) -> Seq<char> {
    match v {
        Json::Null => "null"@,
        Json::Bool(_) => "boolean `"@ + json_text(v) + "`"@,
        Json::UInt(_) => "integer `"@ + json_text(v) + "`"@,
        Json::NegInt(_) => "integer `"@ + json_text(v) + "`"@,
        Json::Float(_) => "floating point `"@ + json_text(v) + "`"@,
        Json::Str(_) => "string"@,
        Json::Array(_) => "sequence"@,
        Json::Object(_) => "map"@,
    }
}

fn describe_unexpected(v: &Value) -> (r: String)
    ensures
        r@ == unexpected(v@),
{
    let text = to_text(v);
    match v {
        Value::Null => "null".to_owned(),
        Value::Bool(_) => cat3("boolean `", text.as_str(), "`"),
        Value::UInt(_) => cat3("integer `", text.as_str(), "`"),
        Value::NegInt(_) => cat3("integer `", text.as_str(), "`"),
        Value::Float(_) => cat3("floating point `", text.as_str(), "`"),
        Value::Str(_) => "string".to_owned(),
        Value::Array(_) => "sequence".to_owned(),
        Value::Object(_) => "map".to_owned(),
    }
}

pub open spec fn is_keyring_key(key: Seq<char>) -> bool {
    key == "keyring_service"@ || key == "keyring_account"@
}

/// The complaint about the first member from `i` on that should be a string of
/// a keyring reference and is not one.
pub open spec fn keyring_complaint(m: Seq<(Seq<char>, Json)>, i: int) -> Option<Seq<char>>
    decreases m.len() - i,
{
    if i < 0 || i >= m.len() {
        None
    } else if is_keyring_key(m[i].0) && !(m[i].1 is Str) {
        Some("invalid type: "@ + unexpected(m[i].1) + ", expected a string"@)
    } else {
        keyring_complaint(m, i + 1)
    }
}

/// The service and account of a keyring reference, or what is wrong with its
/// shape.
pub open spec fn keyring_shape(m: Seq<(Seq<char>, Json)>) -> Result<(Seq<char>, Seq<char>), Seq<char>> {
    match keyring_complaint(m, 0) {
        Some(e) => Err(e),
        None => match Json::Object(m).get_str("keyring_service"@) {
            None => Err("missing field `keyring_service`"@),
            Some(s) => match Json::Object(m).get_str("keyring_account"@) {
                None => Err("missing field `keyring_account`"@),
                Some(a) => Ok((s, a)),
            },
        },
    }
}

/// The keyring reference that an object holds.
pub fn keyring_ref_of(v: &Value) -> (r: Result<KeyringRef, String>)
    requires
        v@ is Object,
    ensures
        match r {
            Ok(k) => keyring_shape(v@->Object_0) == Ok::<(Seq<char>, Seq<char>), Seq<char>>(
                (k.keyring_service@, k.keyring_account@),
            ),
            Err(e) => keyring_shape(v@->Object_0) == Err::<(Seq<char>, Seq<char>), Seq<char>>(e@),
        },
{
    match v {
        Value::Object(m) => {
            let mut i: usize = 0;
            while i < m.len()
                invariant
                    i <= m.len(),
                    keyring_complaint(members(m@), 0) == keyring_complaint(members(m@), i as int),
                    v@ == Json::Object(members(m@)),
                decreases m.len() - i,
            {
                let key = m[i].0.as_str();
                if (same(key, "keyring_service") || same(key, "keyring_account"))
                    && m[i].1.as_str().is_none() {
                    let what = describe_unexpected(&m[i].1);
                    return Err(cat3("invalid type: ", what.as_str(), ", expected a string"));
                }
                i += 1;
            }
        },
        _ => {},
    }
    match v.get_str("keyring_service") {
        None => Err("missing field `keyring_service`".to_owned()),
        Some(s) => match v.get_str("keyring_account") {
            None => Err("missing field `keyring_account`".to_owned()),
            Some(a) => Ok(
                KeyringRef { keyring_service: s.to_owned(), keyring_account: a.to_owned() },
            ),
        },
    }
}

// ── Resolution ───────────────────────────────────────────────────────────────

pub open spec fn null_secret() -> Seq<char> {
    "secret value is null; provide an inline string, a keyring reference, or a *-env pointer"@
}

pub open spec fn unsupported_secret(v: Json) -> Seq<char> {
    "secret value has unsupported JSON type "@ + json_type(v) + "; expected string or object"@
}

pub open spec fn bad_keyring_shape(e: Seq<char>) -> Seq<char> {
    "keyring reference must have 'keyring_service' and 'keyring_account' string fields; got: "@ + e
}

/// Whether `load` can be asked about the keyring reference that a value is; it is
/// asked about nothing else.
pub open spec fn may_load<F: FnOnce(&KeyringRef) -> Result<String, String>>(load: F, value: Json) -> bool {
    match value {
        Json::Object(m) => match keyring_shape(m) {
            Ok((s, a)) => forall|k: &KeyringRef|
                k.keyring_service@ == s && k.keyring_account@ == a ==> #[trigger] call_requires(
                    load,
                    (k,),
                ),
            Err(_) => true,
        },
        _ => true,
    }
}

/// Whether this is what a secret's value resolves to: itself where it is a string, what
/// the keyring holds where it is a reference.
pub open spec fn is_resolved<F: FnOnce(&KeyringRef) -> Result<String, String>>(r: Result<String, String>, value: Json, load: F) -> bool {
    match value {
        Json::Str(s) => text_result(r) == Ok::<Seq<char>, Seq<char>>(s),
        Json::Null => text_result(r) == Err::<Seq<char>, Seq<char>>(null_secret()),
        Json::Object(m) => match keyring_shape(m) {
            Err(e) => text_result(r) == Err::<Seq<char>, Seq<char>>(bad_keyring_shape(e)),
            Ok((s, a)) => exists|k: &KeyringRef|
                k.keyring_service@ == s && k.keyring_account@ == a && #[trigger] call_ensures(
                    load,
                    (k,),
                    r,
                ),
        },
        other => text_result(r) == Err::<Seq<char>, Seq<char>>(unsupported_secret(other)),
    }
}

/// Resolve a secret value: a string is the secret itself; an object is a
/// keyring reference, which `load` looks up; anything else is an error, and so is
/// an object that is no reference. `load` is asked about a reference alone.
pub fn resolve<F: FnOnce(&KeyringRef) -> Result<String, String>>(value: &Value, load: F) -> (r: Result<
    String,
    String,
>)
    requires
        may_load(load, value@),
    ensures
        is_resolved(r, value@, load),
{
    match value {
        Value::Str(s) => Ok(s.clone()),
        Value::Object(_) => match keyring_ref_of(value) {
            Ok(k) => load(&k),
            Err(e) => Err(
                cat2(
                    "keyring reference must have 'keyring_service' and 'keyring_account' string fields; got: ",
                    e.as_str(),
                ),
            ),
        },
        Value::Null => Err(
            "secret value is null; provide an inline string, a keyring reference, or a *-env pointer".to_owned(),
        ),
        other => Err(
            cat3(
                "secret value has unsupported JSON type ",
                type_name_of(other),
                "; expected string or object",
            ),
        ),
    }
}

/// Whether this is what the secret in a field resolves to; an error says in which.
pub open spec fn is_resolved_in_field<F: FnOnce(&KeyringRef) -> Result<String, String>>(
    r: Result<String, String>,
    parent: Seq<char>,
    field_name: Seq<char>,
    value: Json,
    load: F,
) -> bool {
    match value {
        Json::Str(s) => text_result(r) == Ok::<Seq<char>, Seq<char>>(s),
        Json::Null => text_result(r) == Err::<Seq<char>, Seq<char>>(
            in_field(parent, field_name, null_secret()),
        ),
        Json::Object(m) => match keyring_shape(m) {
            Err(e) => text_result(r) == Err::<Seq<char>, Seq<char>>(
                in_field(parent, field_name, bad_keyring_shape(e)),
            ),
            Ok((s, a)) => exists|k: &KeyringRef, o: Result<String, String>|
                k.keyring_service@ == s && k.keyring_account@ == a && #[trigger] call_ensures(
                    load,
                    (k,),
                    o,
                ) && text_result(r) == (match o {
                    Ok(t) => Ok::<Seq<char>, Seq<char>>(t@),
                    Err(e) => Err(in_field(parent, field_name, e@)),
                }),
        },
        other => text_result(r) == Err::<Seq<char>, Seq<char>>(
            in_field(parent, field_name, unsupported_secret(other)),
        ),
    }
}

/// [`resolve`] for one field: an error names the field that it is about.
pub fn resolve_in_field<F: FnOnce(&KeyringRef) -> Result<String, String>>(
    parent: &str,
    field_name: &str,
    value: &Value,
    load: F,
) -> (r: Result<String, String>)
    requires
        may_load(load, value@),
    ensures
        is_resolved_in_field(r, parent@, field_name@, value@, load),
{
    match resolve(value, load) {
        Ok(s) => Ok(s),
        Err(e) => Err(cat5(parent, "'s '", field_name, "' ", e.as_str())),
    }
}

pub open spec fn in_field(parent: Seq<char>, field_name: Seq<char>, e: Seq<char>) -> Seq<char> {
    parent + "'s '"@ + field_name + "' "@ + e
}

/// The answer for a keyring reference whose lookup came to `o`.
pub open spec fn loaded(service: Seq<char>, account: Seq<char>, o: KeyringLookup) -> Result<
    Seq<char>,
    Seq<char>,
> {
    match o {
        KeyringLookup::Found(s) => Ok(s@),
        KeyringLookup::OpenFailed(e) => Err(
            "keyring entry '"@ + service + "/"@ + account + ("' open failed: "@ + e@),
        ),
        KeyringLookup::ReadFailed(e) => Err(
            "keyring lookup '"@ + service + "/"@ + account + ("' failed: "@ + e@
                + " (this commonly means the entry was never stored; see `docs/oauth-integration.md` for the setup commands)"@),
        ),
    }
}

pub open spec fn empty_keyring_ref(service: Seq<char>, account: Seq<char>) -> Seq<char> {
    "keyring reference requires non-empty 'keyring_service' and 'keyring_account' (got service='"@
        + service + "', account='"@ + account + "')"@
}

/// Whether this is what a keyring holds under a reference, which has to name both a
/// service and an account.
pub open spec fn is_keyring_load<G: FnOnce(&KeyringRef) -> KeyringLookup>(r: Result<String, String>, k: &KeyringRef, lookup: G) -> bool {
    &&& k.keyring_service@.len() == 0 || k.keyring_account@.len() == 0 ==> text_result(r) == Err::<
        Seq<char>,
        Seq<char>,
    >(empty_keyring_ref(k.keyring_service@, k.keyring_account@))
    &&& k.keyring_service@.len() > 0 && k.keyring_account@.len() > 0 ==> exists|o: KeyringLookup|
        #[trigger] call_ensures(lookup, (k,), o) && text_result(r) == loaded(
            k.keyring_service@,
            k.keyring_account@,
            o,
        )
}

/// Load a secret from the OS credential manager, which `lookup` asks. A
/// reference with an empty part is refused before anything is looked up.
pub fn load_keyring<G: FnOnce(&KeyringRef) -> KeyringLookup>(k: &KeyringRef, lookup: G) -> (r: Result<
    String,
    String,
>)
    requires
        k.keyring_service@.len() > 0 && k.keyring_account@.len() > 0 ==> call_requires(
            lookup,
            (k,),
        ),
    ensures
        is_keyring_load(r, k, lookup),
{
    let service = k.keyring_service.as_str();
    let account = k.keyring_account.as_str();
    if service.is_empty() || account.is_empty() {
        return Err(
            cat5(
                "keyring reference requires non-empty 'keyring_service' and 'keyring_account' (got service='",
                service,
                "', account='",
                account,
                "')",
            ),
        );
    }
    let o = lookup(k);
    match o {
        KeyringLookup::Found(s) => Ok(s),
        KeyringLookup::OpenFailed(e) => {
            let tail = cat2("' open failed: ", e.as_str());
            Err(cat5("keyring entry '", service, "/", account, tail.as_str()))
        },
        KeyringLookup::ReadFailed(e) => {
            let tail = cat3(
                "' failed: ",
                e.as_str(),
                " (this commonly means the entry was never stored; see `docs/oauth-integration.md` for the setup commands)",
            );
            Err(cat5("keyring lookup '", service, "/", account, tail.as_str()))
        },
    }
}

/// The loader that takes the place of the OS credential manager, if any.
pub struct SecretLoaderSlot<F> {
    pub loader: Option<F>,
}

/// Install a loader that stands in for the OS credential manager; `None`
/// restores the real one.
pub fn set_secret_loader_for_tests<F>(slot: &mut SecretLoaderSlot<F>, loader: Option<F>)
    ensures
        final(slot).loader == loader,
{
    slot.loader = loader;
}

/// Whether this is what a reference loads where a loader may stand in for the keyring.
pub open spec fn is_overridden_load<
    F: Fn(&KeyringRef) -> Result<String, String>,
    G: FnOnce(&KeyringRef) -> KeyringLookup,
>(
    r: Result<String, String>,
    loader: Option<F>,
    k: &KeyringRef,
    lookup: G,
) -> bool {
    match loader {
        Some(f) => call_ensures(f, (k,), r),
        None => {
            &&& (k.keyring_service@.len() == 0 || k.keyring_account@.len() == 0) ==> text_result(
                r,
            ) == Err::<Seq<char>, Seq<char>>(
                empty_keyring_ref(k.keyring_service@, k.keyring_account@),
            )
            &&& (k.keyring_service@.len() > 0 && k.keyring_account@.len() > 0) ==> exists|
                o: KeyringLookup,
            | #[trigger] call_ensures(lookup, (k,), o) && text_result(r) == loaded(
                k.keyring_service@,
                k.keyring_account@,
                o,
            )
        },
    }
}

/// Ask the installed loader first; without one, [`load_keyring`] answers.
pub fn load_keyring_with_test_override<
    F: Fn(&KeyringRef) -> Result<String, String>,
    G: FnOnce(&KeyringRef) -> KeyringLookup,
>(slot: &SecretLoaderSlot<F>, k: &KeyringRef, lookup: G) -> (r: Result<String, String>)
    requires
        match slot.loader {
            Some(f) => call_requires(f, (k,)),
            None => k.keyring_service@.len() > 0 && k.keyring_account@.len() > 0 ==> call_requires(
                lookup,
                (k,),
            ),
        },
    ensures
        is_overridden_load(r, slot.loader, k, lookup),
{
    match &slot.loader {
        Some(f) => f(k),
        None => load_keyring(k, lookup),
    }
}

// ── Encryption ───────────────────────────────────────────────────────────────

/// The service under which scoped secrets stand in the OS credential manager.
pub const SECRETS_KEYRING_SERVICE: &'static str = "sol-secrets";

pub const KEY_LEN: usize = 32;

pub const NONCE_LEN: usize = 12;

/// The length of the tag behind a ciphertext.
pub const TAG_LEN: usize = 16;

/// The longest text, in bytes, that AES-GCM encrypts under one nonce.
pub const MAX_SECRET_LEN: u64 = 0x10_0000_0000;

/// What AES-256-GCM encrypts a plaintext to under a key and a nonce.
pub uninterp spec fn gcm_sealed(key: Seq<u8>, nonce: Seq<u8>, plaintext: Seq<u8>) -> Option<
    Seq<u8>,
>;

/// What AES-256-GCM decrypts a ciphertext to under a key and a nonce; there is
/// nothing where its tag does not match.
pub uninterp spec fn gcm_opened(key: Seq<u8>, nonce: Seq<u8>, ciphertext: Seq<u8>) -> Option<
    Seq<u8>,
>;

/// `aes_gcm::Aes256Gcm::encrypt` with the tag behind the ciphertext. It refuses
/// exactly the plaintexts over the cipher's length limit. What it returns is as
/// long as the plaintext and the tag, and decrypts to the plaintext under the same
/// key and nonce.
#[verifier::external_body]
fn seal(key: &[u8], nonce: &[u8], plaintext: &[u8]) -> (r: Option<Vec<u8>>)
    requires
        key@.len() == KEY_LEN,
        nonce@.len() == NONCE_LEN,
    ensures
        match r {
            Some(c) => gcm_sealed(key@, nonce@, plaintext@) == Some(c@) && gcm_opened(
                key@,
                nonce@,
                c@,
            ) == Some(plaintext@) && c@.len() == plaintext@.len() + TAG_LEN && plaintext@.len()
                <= MAX_SECRET_LEN,
            None => gcm_sealed(key@, nonce@, plaintext@) is None && plaintext@.len()
                > MAX_SECRET_LEN,
        },
{
    Aes256Gcm::new(Key::<Aes256Gcm>::from_slice(key)).encrypt(Nonce::from_slice(nonce), plaintext).ok()
}

/// `aes_gcm::Aes256Gcm::decrypt`: the plaintext named [`gcm_opened`], or nothing
/// where the tag does not match.
#[verifier::external_body]
fn unseal(key: &[u8], nonce: &[u8], ciphertext: &[u8]) -> (r: Option<Vec<u8>>)
    requires
        key@.len() == KEY_LEN,
        nonce@.len() == NONCE_LEN,
    ensures
        match r {
            Some(p) => gcm_opened(key@, nonce@, ciphertext@) == Some(p@),
            None => gcm_opened(key@, nonce@, ciphertext@) is None,
        },
{
    Aes256Gcm::new(Key::<Aes256Gcm>::from_slice(key)).decrypt(Nonce::from_slice(nonce), ciphertext).ok()
}

/// `aes_gcm::Aes256Gcm::generate_nonce` from the operating system's random
/// source: twelve bytes, of which nothing else is known.
#[verifier::external_body]
fn fresh_nonce() -> (r: Vec<u8>)
    ensures
        r@.len() == NONCE_LEN,
{
    Aes256Gcm::generate_nonce(&mut OsRng).to_vec()
}

/// The key that a base64 text holds, which has to be exactly 32 bytes.
pub open spec fn decoded_key(key_b64: Seq<char>) -> Result<Seq<u8>, Seq<char>> {
    match base64_decoded(key_b64) {
        Err(e) => Err("secret key is not valid base64: "@ + e),
        Ok(b) => if b.len() == KEY_LEN {
            Ok(b)
        } else {
            Err("secret key must decode to 32 bytes, got "@ + decimal(b.len()))
        },
    }
}

/// Decode a base64 key and refuse one that is not exactly 32 bytes.
pub fn decode_key(key_b64: &str) -> (r: Result<Vec<u8>, String>)
    ensures
        match r {
            Ok(b) => decoded_key(key_b64@) == Ok::<Seq<u8>, Seq<char>>(b@) && b@.len() == KEY_LEN,
            Err(e) => decoded_key(key_b64@) == Err::<Seq<u8>, Seq<char>>(e@),
        },
{
    match decode_base64(key_b64) {
        Err(e) => Err(cat2("secret key is not valid base64: ", e.as_str())),
        Ok(b) => if b.len() == KEY_LEN {
            Ok(b)
        } else {
            let n = print_u64(b.len() as u64);
            Err(cat2("secret key must decode to 32 bytes, got ", n.as_str()))
        },
    }
}

/// The text that a stored blob holds under a key: base64 of a nonce and the
/// ciphertext behind it.
pub open spec fn unsealed(blob_b64: Seq<char>, key_b64: Seq<char>) -> Result<Seq<char>, Seq<char>> {
    match decoded_key(key_b64) {
        Err(e) => Err(e),
        Ok(key) => match base64_decoded(blob_b64) {
            Err(e) => Err("stored secret is not valid base64: "@ + e),
            Ok(blob) => unsealed_blob(blob, key),
        },
    }
}

pub open spec fn unsealed_blob(blob: Seq<u8>, key: Seq<u8>) -> Result<Seq<char>, Seq<char>> {
    if blob.len() < NONCE_LEN {
        Err("stored secret is too short to contain a nonce"@)
    } else {
        match gcm_opened(key, blob.take(NONCE_LEN as int), blob.skip(NONCE_LEN as int)) {
            None => Err("secret decryption failed (wrong key or corrupted entry)"@),
            Some(p) => opened_text(p),
        }
    }
}

/// The text of a decrypted plaintext.
pub open spec fn opened_text(p: Seq<u8>) -> Result<Seq<char>, Seq<char>> {
    if valid_utf8(p) {
        Ok(decode_utf8(p))
    } else {
        Err("decrypted secret is not valid UTF-8: "@ + utf8_error(p))
    }
}

/// Whether a stored blob holds a text under a key: base64 of a nonce, the
/// ciphertext and its tag, which decrypts to the text.
pub open spec fn is_blob_of(blob_b64: Seq<char>, value: Seq<char>, key_b64: Seq<char>) -> bool {
    &&& base64_decoded(blob_b64) matches Ok(blob)
    &&& blob.len() == NONCE_LEN + encode_utf8(value).len() + TAG_LEN
    &&& unsealed(blob_b64, key_b64) == Ok::<Seq<char>, Seq<char>>(value)
}

/// Whether this seals a value under a key.
pub open spec fn is_encryption(r: Result<String, String>, value: Seq<char>, key_b64: Seq<char>) -> bool {
    match decoded_key(key_b64) {
        Err(e) => text_result(r) == Err::<Seq<char>, Seq<char>>(e),
        Ok(_) => if encode_utf8(value).len() <= MAX_SECRET_LEN {
            r is Ok && is_blob_of(r->Ok_0@, value, key_b64)
        } else {
            text_result(r) == Err::<Seq<char>, Seq<char>>(
                "secret encryption failed: aead::Error"@,
            )
        },
    }
}

/// Encrypt `value` under a base64 key. What comes out decrypts to `value` under
/// that key; it is refused where the key is, or where the value is too long for
/// the cipher.
pub fn encrypt(value: &str, key_b64: &str) -> (r: Result<String, String>)
    ensures
        is_encryption(r, value@, key_b64@),
{
    let key = match decode_key(key_b64) {
        Ok(k) => k,
        Err(e) => {
            return Err(e);
        },
    };
    let nonce = fresh_nonce();
    match seal(key.as_slice(), nonce.as_slice(), value.as_bytes()) {
        None => Err("secret encryption failed: aead::Error".to_owned()),
        Some(ciphertext) => {
            let mut blob = nonce;
            let ghost n = blob@;
            let mut i: usize = 0;
            while i < ciphertext.len()
                invariant
                    i <= ciphertext.len(),
                    blob@ == n + ciphertext@.take(i as int),
                decreases ciphertext.len() - i,
            {
                blob.push(ciphertext[i]);
                assert(blob@ =~= n + ciphertext@.take(i + 1));
                i += 1;
            }
            proof {
                assert(blob@.take(NONCE_LEN as int) =~= n);
                assert(blob@.skip(NONCE_LEN as int) =~= ciphertext@);
                encode_utf8_valid_utf8(value@);
                encode_utf8_decode_utf8(value@);
            }
            Ok(encode_base64(&blob))
        },
    }
}

/// Decrypt a stored blob with a base64 key.
pub fn decrypt(blob_b64: &str, key_b64: &str) -> (r: Result<String, String>)
    ensures
        text_result(r) == unsealed(blob_b64@, key_b64@),
{
    let key = match decode_key(key_b64) {
        Ok(k) => k,
        Err(e) => {
            return Err(e);
        },
    };
    let blob = match decode_base64(blob_b64) {
        Ok(b) => b,
        Err(e) => {
            return Err(cat2("stored secret is not valid base64: ", e.as_str()));
        },
    };
    decrypt_blob(&blob, &key)
}

/// Decrypt a nonce and the ciphertext behind it.
pub fn decrypt_blob(blob: &Vec<u8>, key: &Vec<u8>) -> (r: Result<String, String>)
    requires
        key@.len() == KEY_LEN,
    ensures
        text_result(r) == unsealed_blob(blob@, key@),
{
    if blob.len() < NONCE_LEN {
        return Err("stored secret is too short to contain a nonce".to_owned());
    }
    let (nonce, ciphertext) = blob.as_slice().split_at(NONCE_LEN);
    assert(nonce@ =~= blob@.take(NONCE_LEN as int));
    assert(ciphertext@ =~= blob@.skip(NONCE_LEN as int));
    match unseal(key.as_slice(), nonce, ciphertext) {
        None => Err("secret decryption failed (wrong key or corrupted entry)".to_owned()),
        Some(p) => plaintext_text(p),
    }
}

/// The text of a decrypted plaintext.
pub fn plaintext_text(p: Vec<u8>) -> (r: Result<String, String>)
    ensures
        text_result(r) == opened_text(p@),
{
    match from_utf8(p) {
        Ok(s) => Ok(s),
        Err(e) => Err(cat2("decrypted secret is not valid UTF-8: ", e.as_str())),
    }
}

// ── Entries of the OS credential manager ─────────────────────────────────────

/// What using a secret's entry in the OS credential manager came to.
#[derive(Debug)]
pub enum EntryOutcome<T> {
    Done(T),
    NoEntry(String),
    OpenFailed(String),
    Failed(String),
}

/// The message about an entry that something went wrong with.
pub open spec fn entry_trouble(
    what: Seq<char>,
    name: Seq<char>,
    how: Seq<char>,
    e: Seq<char>,
) -> Seq<char> {
    what + SECRETS_KEYRING_SERVICE@ + "/"@ + name + (how + e)
}

fn trouble(what: &str, name: &str, how: &str, e: &str) -> (r: String)
    ensures
        r@ == entry_trouble(what@, name@, how@, e@),
{
    let tail = cat2(how, e);
    cat5(what, SECRETS_KEYRING_SERVICE, "/", name, tail.as_str())
}

/// What reading a secret's entry answers: nothing where there is no entry.
pub open spec fn entry_read(name: Seq<char>, o: EntryOutcome<String>) -> Result<
    Option<Seq<char>>,
    Seq<char>,
> {
    match o {
        EntryOutcome::Done(blob) => Ok(Some(blob@)),
        EntryOutcome::NoEntry(_) => Ok(None),
        EntryOutcome::OpenFailed(e) => Err(
            entry_trouble("keyring entry '"@, name, "' open failed: "@, e@),
        ),
        EntryOutcome::Failed(e) => Err(entry_trouble("keyring lookup '"@, name, "' failed: "@, e@)),
    }
}

/// What reading a secret's entry answers: nothing where there is no entry.
pub fn real_raw_get(name: &str, o: EntryOutcome<String>) -> (r: Result<Option<String>, String>)
    ensures
        raw_view(r) == entry_read(name@, o),
{
    match o {
        EntryOutcome::Done(blob) => Ok(Some(blob)),
        EntryOutcome::NoEntry(_) => Ok(None),
        EntryOutcome::OpenFailed(e) => Err(
            trouble("keyring entry '", name, "' open failed: ", e.as_str()),
        ),
        EntryOutcome::Failed(e) => Err(trouble("keyring lookup '", name, "' failed: ", e.as_str())),
    }
}

/// Whether this is what writing a keyring entry comes to.
pub open spec fn is_entry_write(r: Result<(), String>, name: Seq<char>, o: EntryOutcome<()>) -> bool {
    match o {
        EntryOutcome::Done(_) => r is Ok,
        EntryOutcome::NoEntry(e) => unit_view(r) == Err::<(), Seq<char>>(
            entry_trouble("keyring write '"@, name, "' failed: "@, e@),
        ),
        EntryOutcome::OpenFailed(e) => unit_view(r) == Err::<(), Seq<char>>(
            entry_trouble("keyring entry '"@, name, "' open failed: "@, e@),
        ),
        EntryOutcome::Failed(e) => unit_view(r) == Err::<(), Seq<char>>(
            entry_trouble("keyring write '"@, name, "' failed: "@, e@),
        ),
    }
}

/// What writing a secret's entry answers.
pub fn real_raw_set(name: &str, o: EntryOutcome<()>) -> (r: Result<(), String>)
    ensures
        is_entry_write(r, name@, o),
{
    match o {
        EntryOutcome::Done(_) => Ok(()),
        EntryOutcome::NoEntry(e) => Err(trouble("keyring write '", name, "' failed: ", e.as_str())),
        EntryOutcome::OpenFailed(e) => Err(
            trouble("keyring entry '", name, "' open failed: ", e.as_str()),
        ),
        EntryOutcome::Failed(e) => Err(trouble("keyring write '", name, "' failed: ", e.as_str())),
    }
}

/// Whether this is what deleting a keyring entry comes to: one that is not there is
/// deleted.
pub open spec fn is_entry_delete(r: Result<(), String>, name: Seq<char>, o: EntryOutcome<()>) -> bool {
    match o {
        EntryOutcome::Done(_) => r is Ok,
        EntryOutcome::NoEntry(_) => r is Ok,
        EntryOutcome::OpenFailed(e) => unit_view(r) == Err::<(), Seq<char>>(
            entry_trouble("keyring entry '"@, name, "' open failed: "@, e@),
        ),
        EntryOutcome::Failed(e) => unit_view(r) == Err::<(), Seq<char>>(
            entry_trouble("keyring delete '"@, name, "' failed: "@, e@),
        ),
    }
}

/// What deleting a secret's entry answers; one that is not there is deleted.
pub fn real_raw_delete(name: &str, o: EntryOutcome<()>) -> (r: Result<(), String>)
    ensures
        is_entry_delete(r, name@, o),
{
    match o {
        EntryOutcome::Done(_) => Ok(()),
        EntryOutcome::NoEntry(_) => Ok(()),
        EntryOutcome::OpenFailed(e) => Err(
            trouble("keyring entry '", name, "' open failed: ", e.as_str()),
        ),
        EntryOutcome::Failed(e) => Err(trouble("keyring delete '", name, "' failed: ", e.as_str())),
    }
}

// ── The scoped secret store ──────────────────────────────────────────────────

/// A place where blobs are kept under names: how one is read, written and
/// deleted. Each of the three may fail.
pub struct SecretBackendOverride<G, S, D> {
    pub get: G,
    pub set: S,
    pub delete: D,
}

/// The scoped secrets: the OS credential manager, and the backend that takes its
/// place while one is installed.
pub struct SecretStore<G, S, D> {
    pub keyring: SecretBackendOverride<G, S, D>,
    pub backend: Option<SecretBackendOverride<G, S, D>>,
}

pub open spec fn raw_view(r: Result<Option<String>, String>) -> Result<
    Option<Seq<char>>,
    Seq<char>,
> {
    match r {
        Ok(Some(s)) => Ok(Some(s@)),
        Ok(None) => Ok(None),
        Err(e) => Err(e@),
    }
}

pub open spec fn unit_view(r: Result<(), String>) -> Result<(), Seq<char>> {
    match r {
        Ok(_) => Ok(()),
        Err(e) => Err(e@),
    }
}

impl<G, S, D> SecretStore<G, S, D> {
    /// The backend that the store reads and writes.
    pub open spec fn active(&self) -> SecretBackendOverride<G, S, D> {
        match self.backend {
            Some(b) => b,
            None => self.keyring,
        }
    }

    pub fn new(keyring: SecretBackendOverride<G, S, D>) -> (r: SecretStore<G, S, D>)
        ensures
            r.keyring == keyring,
            r.backend is None,
    {
        SecretStore { keyring, backend: None }
    }
}

/// Install a backend in place of the OS credential manager; `None` restores the
/// credential manager.
pub fn set_secret_backend_for_tests<G, S, D>(
    store: &mut SecretStore<G, S, D>,
    backend: Option<SecretBackendOverride<G, S, D>>,
)
    ensures
        final(store).backend == backend,
        final(store).keyring == old(store).keyring,
{
    store.backend = backend;
}

/// Whether a value can be stored with a key: the key is one, and the value is not
/// too long for the cipher.
pub open spec fn storable(value: Seq<char>, key: Seq<char>) -> bool {
    decoded_key(key) is Ok && encode_utf8(value).len() <= MAX_SECRET_LEN
}

/// Whether a backend can be handed what storing `value` under `name` with `key`
/// hands it: a blob of the value under that name. It is handed nothing else, so
/// neither the value itself nor anything under another name, and nothing at all
/// where the value cannot be stored.
pub open spec fn takes<S: Fn(&str, &str) -> Result<(), String>>(
    set: S,
    name: Seq<char>,
    value: Seq<char>,
    key: Seq<char>,
) -> bool {
    storable(value, key) ==> forall|n: &str, b: &str|
        n@ == name && is_blob_of(b@, value, key) ==> #[trigger] call_requires(set, (n, b))
}

/// What a backend's answer to a read opens to under a key: its error is handed
/// on, and where there is no entry the key does not matter.
pub open spec fn opened(raw: Result<Option<Seq<char>>, Seq<char>>, key: Seq<char>) -> Result<
    Option<Seq<char>>,
    Seq<char>,
> {
    match raw {
        Err(e) => Err(e),
        Ok(None) => Ok(None),
        Ok(Some(blob)) => match unsealed(blob, key) {
            Ok(v) => Ok(Some(v)),
            Err(e) => Err(e),
        },
    }
}

/// Whether reading `name` with `key` can come to `r`: what the backend answered
/// for that name opens to it.
pub open spec fn may_read<G: Fn(&str) -> Result<Option<String>, String>>(
    get: G,
    name: Seq<char>,
    key: Seq<char>,
    r: Result<Option<Seq<char>>, Seq<char>>,
) -> bool {
    exists|n: &str, o: Result<Option<String>, String>|
        n@ == name && #[trigger] call_ensures(get, (n,), o) && r == opened(raw_view(o), key)
}

/// Whether the backend was handed a blob of `value` under `name`, and answered
/// `r`.
pub open spec fn may_hand<S: Fn(&str, &str) -> Result<(), String>>(
    set: S,
    name: Seq<char>,
    value: Seq<char>,
    key: Seq<char>,
    r: Result<(), Seq<char>>,
) -> bool {
    exists|n: &str, b: &str, o: Result<(), String>|
        n@ == name && is_blob_of(b@, value, key) && #[trigger] call_ensures(set, (n, b), o) && r
            == unit_view(o)
}

/// Whether storing `value` under `name` with `key` can come to `r`: a key that is
/// no key is refused, and a value that is too long for the cipher; for any other
/// it is the backend that answers.
pub open spec fn may_write<S: Fn(&str, &str) -> Result<(), String>>(
    set: S,
    name: Seq<char>,
    value: Seq<char>,
    key: Seq<char>,
    r: Result<(), Seq<char>>,
) -> bool {
    match decoded_key(key) {
        Err(e) => r == Err::<(), Seq<char>>(e),
        Ok(_) => if encode_utf8(value).len() <= MAX_SECRET_LEN {
            may_hand(set, name, value, key, r)
        } else {
            r == Err::<(), Seq<char>>("secret encryption failed: aead::Error"@)
        },
    }
}

fn raw_get<G: Fn(&str) -> Result<Option<String>, String>, S, D>(
    store: &SecretStore<G, S, D>,
    name: &str,
) -> (r: Result<Option<String>, String>)
    requires
        call_requires(store.active().get, (name,)),
    ensures
        call_ensures(store.active().get, (name,), r),
{
    match &store.backend {
        Some(b) => (b.get)(name),
        None => (store.keyring.get)(name),
    }
}

fn raw_set<G, S: Fn(&str, &str) -> Result<(), String>, D>(
    store: &SecretStore<G, S, D>,
    name: &str,
    blob: &str,
) -> (r: Result<(), String>)
    requires
        call_requires(store.active().set, (name, blob)),
    ensures
        call_ensures(store.active().set, (name, blob), r),
{
    match &store.backend {
        Some(b) => (b.set)(name, blob),
        None => (store.keyring.set)(name, blob),
    }
}

fn raw_delete<G, S, D: Fn(&str) -> Result<(), String>>(store: &SecretStore<G, S, D>, name: &str) -> (r:
    Result<(), String>)
    requires
        call_requires(store.active().delete, (name,)),
    ensures
        call_ensures(store.active().delete, (name,), r),
{
    match &store.backend {
        Some(b) => (b.delete)(name),
        None => (store.keyring.delete)(name),
    }
}

/// Encrypt `value` with the base64 key and store it under `name`. The backend is
/// handed the encrypted blob alone, and nothing where the key or the value is
/// refused.
pub fn set_secret<G, S: Fn(&str, &str) -> Result<(), String>, D>(
    store: &SecretStore<G, S, D>,
    name: &str,
    value: &str,
    key_b64: &str,
) -> (r: Result<(), String>)
    requires
        takes(store.active().set, name@, value@, key_b64@),
    ensures
        may_write(store.active().set, name@, value@, key_b64@, unit_view(r)),
{
    match encrypt(value, key_b64) {
        Ok(blob) => {
            let b: &str = blob.as_str();
            assert(is_blob_of(b@, value@, key_b64@));
            let r = raw_set(store, name, b);
            assert(call_ensures(store.active().set, (name, b), r));
            r
        },
        Err(e) => Err(e),
    }
}

/// Read the value under `name`, decrypting with the base64 key: nothing where
/// there is no entry, an error where it cannot be read or the key does not open
/// it.
pub fn get_secret<G: Fn(&str) -> Result<Option<String>, String>, S, D>(
    store: &SecretStore<G, S, D>,
    name: &str,
    key_b64: &str,
) -> (r: Result<Option<String>, String>)
    requires
        call_requires(store.active().get, (name,)),
    ensures
        may_read(store.active().get, name@, key_b64@, raw_view(r)),
{
    let raw = raw_get(store, name);
    assert(call_ensures(store.active().get, (name,), raw));
    match raw {
        Ok(Some(blob)) => match decrypt(blob.as_str(), key_b64) {
            Ok(v) => Ok(Some(v)),
            Err(e) => Err(e),
        },
        Ok(None) => Ok(None),
        Err(e) => Err(e),
    }
}

/// Remove the entry under `name`, if there is one.
pub fn delete_secret<G, S, D: Fn(&str) -> Result<(), String>>(
    store: &SecretStore<G, S, D>,
    name: &str,
) -> (r: Result<(), String>)
    requires
        call_requires(store.active().delete, (name,)),
    ensures
        call_ensures(store.active().delete, (name,), r),
{
    raw_delete(store, name)
}

/// What reading `name` with `key` gives where a backend holds these blobs.
pub open spec fn secret_read(
    blobs: Map<Seq<char>, Seq<char>>,
    name: Seq<char>,
    key: Seq<char>,
) -> Result<Option<Seq<char>>, Seq<char>> {
    opened(
        Ok(
            if blobs.contains_key(name) {
                Some(blobs[name])
            } else {
                None
            },
        ),
        key,
    )
}

/// A backend that can be handed anything can be handed what storing a secret hands
/// it.
pub proof fn lemma_any_backend_takes<S: Fn(&str, &str) -> Result<(), String>>(
    set: S,
    name: Seq<char>,
    value: Seq<char>,
    key: Seq<char>,
)
    requires
        forall|n: &str, b: &str| #[trigger] call_requires(set, (n, b)),
    ensures
        takes(set, name, value, key),
{
}

/// In a backend that keeps what it is handed, a secret that was stored is read
/// back with the same key, and what stands under every other name is read as
/// before.
pub proof fn lemma_set_then_get(
    blobs: Map<Seq<char>, Seq<char>>,
    name: Seq<char>,
    blob: Seq<char>,
    value: Seq<char>,
    key: Seq<char>,
    other: Seq<char>,
    other_key: Seq<char>,
)
    requires
        is_blob_of(blob, value, key),
    ensures
        secret_read(blobs.insert(name, blob), name, key) == Ok::<Option<Seq<char>>, Seq<char>>(
            Some(value),
        ),
        other != name ==> secret_read(blobs.insert(name, blob), other, other_key) == secret_read(
            blobs,
            other,
            other_key,
        ),
{
}

/// In a backend that drops what it is told to, a secret that was deleted is gone
/// whatever key is used, and what stands under every other name is read as
/// before.
pub proof fn lemma_delete_then_get(
    blobs: Map<Seq<char>, Seq<char>>,
    name: Seq<char>,
    key: Seq<char>,
    other: Seq<char>,
)
    ensures
        secret_read(blobs.remove(name), name, key) == Ok::<Option<Seq<char>>, Seq<char>>(None),
        other != name ==> secret_read(blobs.remove(name), other, key) == secret_read(
            blobs,
            other,
            key,
        ),
{
}

} // verus!
