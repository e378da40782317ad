//! Secrets: how they are referred to, sealed and read.

use vstd::prelude::*;
use vstd::string::*;
use vstd::utf8::{decode_utf8, encode_utf8, valid_utf8};

use crate::encoding::base64_decoded;
use crate::json::lemma_key_index;
use crate::secrets::{decoded_key, entry_read, gcm_opened, in_field, is_blob_of, is_encryption};
use crate::secrets::{is_entry_delete, is_entry_write, is_keyring_load, is_overridden_load};
use crate::secrets::{is_resolved, is_resolved_in_field, json_type, keyring_complaint};
use crate::secrets::{keyring_shape, may_write, opened, unsealed, unsealed_blob, EntryOutcome};
use crate::secrets::{KeyringLookup, KeyringRef};
use crate::value::Json;

verus! {

// ── References ───────────────────────────────────────────────────────────────

proof fn lemma_keyring_complaint(m: Seq<(Seq<char>, Json)>, i: int)
    requires
        0 <= i <= m.len(),
    ensures
        keyring_complaint(m, i) is None <==> forall|j: int|
            i <= j < m.len() && ((#[trigger] m[j]).0 == "keyring_service"@ || m[j].0
                == "keyring_account"@) ==> m[j].1 is Str,
    decreases m.len() - i,
{
    if i < m.len() {
        lemma_keyring_complaint(m, i + 1);
    }
}

/// An object refers to a keyring entry if and only if it has a service and an account
/// and both are strings; it refers to the entry of that service and account.
pub proof fn lemma_what_refers_to_a_keyring(m: Seq<(Seq<char>, Json)>)
    requires
        forall|i: int, j: int|
            0 <= i < j < m.len() ==> (#[trigger] m[i]).0 != (#[trigger] m[j]).0,
    ensures
        keyring_shape(m) is Ok <==> Json::Object(m).get_str("keyring_service"@) is Some
            && Json::Object(m).get_str("keyring_account"@) is Some,
        keyring_shape(m) matches Ok((s, a)) ==> Json::Object(m).get_str("keyring_service"@) == Some(
            s,
        ) && Json::Object(m).get_str("keyring_account"@) == Some(a),
{
    lemma_keyring_complaint(m, 0);
    lemma_key_index(m, "keyring_service"@);
    lemma_key_index(m, "keyring_account"@);
    if Json::Object(m).get_str("keyring_service"@) is Some && Json::Object(m).get_str(
        "keyring_account"@,
    ) is Some {
        let s = crate::json::key_index(m, "keyring_service"@);
        let a = crate::json::key_index(m, "keyring_account"@);
        assert forall|j: int|
            0 <= j < m.len() && ((#[trigger] m[j]).0 == "keyring_service"@ || m[j].0
                == "keyring_account"@) implies m[j].1 is Str by {
            if m[j].0 == "keyring_service"@ {
                if j < s {
                    assert(m[j].0 != m[s].0);
                } else if s < j {
                    assert(m[s].0 != m[j].0);
                }
            } else {
                if j < a {
                    assert(m[j].0 != m[a].0);
                } else if a < j {
                    assert(m[a].0 != m[j].0);
                }
            }
        }
    }
}

/// A string is its own secret, an object the entry that it refers to, and anything
/// else is refused. Only the keyring can refuse a reference.
pub proof fn lemma_what_a_secret_resolves_to<
    F: FnOnce(&KeyringRef) -> Result<String, String>,
>(r: Result<String, String>, value: Json, load: F)
    requires
        is_resolved(r, value, load),
    ensures
        value matches Json::Str(s) ==> (r matches Ok(x) && x@ == s),
        !(value is Str) && !(value is Object) ==> r is Err,
        value matches Json::Object(m) ==> {
            &&& (keyring_shape(m) is Err ==> r is Err)
            &&& (keyring_shape(m) matches Ok((s, a)) ==> exists|k: &KeyringRef|
                k.keyring_service@ == s && k.keyring_account@ == a && #[trigger] call_ensures(
                    load,
                    (k,),
                    r,
                ))
        },
{
}

/// A secret in a field resolves as it would by itself, and an error says whose field
/// it was.
pub proof fn lemma_errors_name_the_field<F: FnOnce(&KeyringRef) -> Result<String, String>>(
    r: Result<String, String>,
    parent: Seq<char>,
    field_name: Seq<char>,
    value: Json,
    load: F,
)
    requires
        is_resolved_in_field(r, parent, field_name, value, load),
    ensures
        value matches Json::Str(s) ==> (r matches Ok(x) && x@ == s),
        !(value is Str) && !(value is Object) ==> r is Err,
        value matches Json::Object(m) ==> (keyring_shape(m) is Err ==> r is Err),
        r matches Err(e) ==> (parent + "'s '"@ + field_name + "' "@).is_prefix_of(e@),
{
    if let Err(e) = r {
        let head = parent + "'s '"@ + field_name + "' "@;
        let rest = choose|rest: Seq<char>| e@ == #[trigger] in_field(parent, field_name, rest);
        assert(e@ == in_field(parent, field_name, rest));
        assert(e@.subrange(0, head.len() as int) =~= head);
    }
}

/// A keyring is asked only for an entry of a service and an account, neither of them
/// empty, and gives what it found.
pub proof fn lemma_what_a_keyring_gives<G: FnOnce(&KeyringRef) -> KeyringLookup>(
    r: Result<String, String>,
    k: &KeyringRef,
    lookup: G,
)
    requires
        is_keyring_load(r, k, lookup),
    ensures
        k.keyring_service@.len() == 0 || k.keyring_account@.len() == 0 ==> r is Err,
        k.keyring_service@.len() > 0 && k.keyring_account@.len() > 0 ==> exists|o: KeyringLookup|
            {
                &&& #[trigger] call_ensures(lookup, (k,), o)
                &&& (o matches KeyringLookup::Found(s) ==> (r matches Ok(x) && x@ == s@))
                &&& (!(o is Found) ==> r is Err)
            },
{
}

/// The kinds of JSON by name.
pub proof fn lemma_json_types(v: Json)
    ensures
        v is Null ==> json_type(v) == "null"@,
        v is Bool ==> json_type(v) == "boolean"@,
        v is UInt || v is NegInt || v is Float ==> json_type(v) == "number"@,
        v is Str ==> json_type(v) == "string"@,
        v is Array ==> json_type(v) == "array"@,
        v is Object ==> json_type(v) == "object"@,
{
}

// ── Seals ────────────────────────────────────────────────────────────────────

/// A key is the base64 of thirty-two bytes, and nothing else is one.
pub proof fn lemma_what_is_a_key(key: Seq<char>)
    ensures
        decoded_key(key) is Ok <==> (base64_decoded(key) matches Ok(b) && b.len() == 32),
        decoded_key(key) matches Ok(b) ==> base64_decoded(key) == Ok::<Seq<u8>, Seq<char>>(b),
{
}

/// A sealed secret is a nonce of twelve bytes and what was sealed under it; it opens
/// to the text that was sealed, and anything shorter or that the key does not open is
/// refused.
pub proof fn lemma_what_a_seal_holds(nonce: Seq<u8>, sealed: Seq<u8>, key: Seq<u8>, short: Seq<u8>)
    requires
        nonce.len() == 12,
        short.len() < 12,
    ensures
        unsealed_blob(short, key) is Err,
        gcm_opened(key, nonce, sealed) is None ==> unsealed_blob(nonce + sealed, key) is Err,
        gcm_opened(key, nonce, sealed) matches Some(p) ==> {
            &&& (valid_utf8(p) ==> unsealed_blob(nonce + sealed, key) == Ok::<Seq<char>, Seq<char>>(
                decode_utf8(p),
            ))
            &&& (!valid_utf8(p) ==> unsealed_blob(nonce + sealed, key) is Err)
        },
{
    assert((nonce + sealed).take(12) =~= nonce);
    assert((nonce + sealed).skip(12) =~= sealed);
}

/// Nothing opens without a key, and nothing that is no base64 opens.
pub proof fn lemma_what_opens(blob: Seq<char>, key: Seq<char>)
    ensures
        decoded_key(key) is Err ==> unsealed(blob, key) is Err,
        base64_decoded(blob) is Err ==> unsealed(blob, key) is Err,
        decoded_key(key) is Ok && base64_decoded(blob) is Ok ==> unsealed(blob, key)
            == unsealed_blob(base64_decoded(blob)->Ok_0, decoded_key(key)->Ok_0),
{
}

// ── The store ────────────────────────────────────────────────────────────────

/// A read of an entry that is not there is no error and reads nothing; a failure is
/// an error.
pub proof fn lemma_reading_an_entry(name: Seq<char>, o: EntryOutcome<String>)
    ensures
        o matches EntryOutcome::Done(b) ==> entry_read(name, o) == Ok::<
            Option<Seq<char>>,
            Seq<char>,
        >(Some(b@)),
        o is NoEntry ==> entry_read(name, o) == Ok::<Option<Seq<char>>, Seq<char>>(None),
        o is OpenFailed || o is Failed ==> entry_read(name, o) is Err,
{
}

/// A write succeeds if and only if it was done; a deletion also where there was
/// nothing to delete.
pub proof fn lemma_writing_and_deleting_entries(
    w: Result<(), String>,
    d: Result<(), String>,
    name: Seq<char>,
    o: EntryOutcome<()>,
)
    requires
        is_entry_write(w, name, o),
        is_entry_delete(d, name, o),
    ensures
        w is Ok <==> o is Done,
        d is Ok <==> o is Done || o is NoEntry,
{
}

/// What is stored is read with its key: nothing stays nothing, a failure a failure,
/// and a sealed text is opened.
pub proof fn lemma_reading_a_secret(
    raw: Result<Option<Seq<char>>, Seq<char>>,
    blob: Seq<char>,
    value: Seq<char>,
    key: Seq<char>,
)
    ensures
        raw is Err ==> opened(raw, key) is Err,
        opened(Ok(None), key) == Ok::<Option<Seq<char>>, Seq<char>>(None),
        is_blob_of(blob, value, key) ==> opened(Ok(Some(blob)), key) == Ok::<
            Option<Seq<char>>,
            Seq<char>,
        >(Some(value)),
        unsealed(blob, key) is Err ==> opened(Ok(Some(blob)), key) is Err,
{
}

/// A secret is handed to the store sealed, under its own name, and the store's answer
/// is the answer; without a key nothing is handed over.
pub proof fn lemma_writing_a_secret<S: Fn(&str, &str) -> Result<(), String>>(
    set: S,
    name: Seq<char>,
    value: Seq<char>,
    key: Seq<char>,
    r: Result<(), Seq<char>>,
)
    requires
        may_write(set, name, value, key, r),
    ensures
        decoded_key(key) is Err ==> r is Err,
        encode_utf8(value).len() > 0x10_0000_0000 ==> r is Err,
        decoded_key(key) is Ok && encode_utf8(value).len() <= 0x10_0000_0000 ==> exists|
            n: &str,
            b: &str,
            o: Result<(), String>,
        |
            {
                &&& n@ == name
                &&& unsealed(b@, key) == Ok::<Seq<char>, Seq<char>>(value)
                &&& #[trigger] call_ensures(set, (n, b), o)
                &&& (r is Ok <==> o is Ok)
            },
        r is Ok ==> exists|n: &str, b: &str, o: Result<(), String>|
            {
                &&& n@ == name
                &&& unsealed(b@, key) == Ok::<Seq<char>, Seq<char>>(value)
                &&& #[trigger] call_ensures(set, (n, b), o)
                &&& o is Ok
            },
{
}

/// A value is sealed if and only if the key is one and the value is not too long, and
/// then it opens with that key to the same value.
pub proof fn lemma_what_is_sealed_opens(
    r: Result<String, String>,
    value: Seq<char>,
    key: Seq<char>,
)
    requires
        is_encryption(r, value, key),
    ensures
        r is Ok <==> decoded_key(key) is Ok && encode_utf8(value).len() <= 0x10_0000_0000,
        r matches Ok(b) ==> unsealed(b@, key) == Ok::<Seq<char>, Seq<char>>(value),
{
}

/// A loader that stands in for the keyring is asked in its place, and without one the
/// keyring is.
pub proof fn lemma_loaders_stand_in<
    F: Fn(&KeyringRef) -> Result<String, String>,
    G: FnOnce(&KeyringRef) -> KeyringLookup,
>(r: Result<String, String>, loader: Option<F>, k: &KeyringRef, lookup: G)
    requires
        is_overridden_load(r, loader, k, lookup),
    ensures
        loader matches Some(f) ==> call_ensures(f, (k,), r),
        loader is None ==> is_keyring_load(r, k, lookup),
{
}

} // verus!
