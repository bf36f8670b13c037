//! The credential gateway over the OS secret vault.
//!
//! Every secret is addressed by the fixed application identifier and a user
//! name derived from the provider: `api_key_` followed by the provider
//! string exactly as supplied, so differently-cased providers name distinct
//! entries. The vault owns all state; the gateway holds no copy and no
//! cache, and success or failure of a vault call depends on the vault
//! alone, so the gateway states what holds of every outcome.

use vstd::prelude::*;
use vstd::string::StringExecFns;

verus! {

/// Outside type: `keyring::Entry`, a handle to one credential in the
/// platform secret store.
#[verifier::external_type_specification]
#[verifier::external_body]
pub struct ExEntry(keyring::Entry);

/// The vault service name under which every secret of this application is
/// stored.
pub fn vault_service() -> (r: &'static str)
    ensures
        r@ == "ContextPad"@,
{
    "ContextPad"
}

/// The vault user name of a provider's API key: `api_key_` followed by the
/// provider string, unnormalized.
pub fn api_key_entry_name(provider: &str) -> (r: String)
    ensures
        r@ == "api_key_"@ + provider@,
{
    let mut s: String = "api_key_".to_owned();
    s.append(provider);
    s
}

/// A gateway failure message: the given prefix wrapped around the vault's
/// own error text.
pub open spec fn gateway_error(msg: Seq<char>, prefix: Seq<char>) -> bool {
    exists|t: Seq<char>| msg == #[trigger] (prefix + t)
}

/// Relies on `keyring::Entry::new`: builds the handle for `(service, user)`
/// in the platform store; whether it succeeds depends on the store alone.
/// On failure the message wraps the store's error text.
#[verifier::external_body]
fn vault_entry(service: &str, user: &str) -> (r: Result<keyring::Entry, String>)
    ensures
        r is Err ==> gateway_error(r->Err_0@, "Failed to create keyring entry: "@),
{
    keyring::Entry::new(service, user).map_err(
        |e| format!("Failed to create keyring entry: {}", e),
    )
}

/// Relies on `keyring::Entry::set_password`: creates or overwrites the
/// entry's secret in the platform store. On failure the message wraps the
/// store's error text.
#[verifier::external_body]
fn vault_set_password(entry: &keyring::Entry, secret: &str) -> (r: Result<(), String>)
    ensures
        r is Err ==> gateway_error(r->Err_0@, "Failed to store API key: "@),
{
    entry.set_password(secret).map_err(|e| format!("Failed to store API key: {}", e))
}

/// Relies on `keyring::Entry::get_password`: retrieves the entry's secret,
/// failing when the entry is absent or the store is unreachable. On failure
/// the message wraps the store's error text.
#[verifier::external_body]
fn vault_get_password(entry: &keyring::Entry) -> (r: Result<String, String>)
    ensures
        r is Err ==> gateway_error(r->Err_0@, "API key not found: "@),
{
    entry.get_password().map_err(|e| format!("API key not found: {}", e))
}

/// Relies on `keyring::Entry::delete_credential`: removes the entry from
/// the platform store, failing when it is absent. On failure the message
/// wraps the store's error text.
#[verifier::external_body]
fn vault_delete_credential(entry: &keyring::Entry) -> (r: Result<(), String>)
    ensures
        r is Err ==> gateway_error(r->Err_0@, "Failed to delete API key: "@),
{
    entry.delete_credential().map_err(|e| format!("Failed to delete API key: {}", e))
}

/// Creates or overwrites the stored API key of `provider`. The outcome is
/// the vault's: the gateway only names the entry and forwards, and a
/// failure carries one of the two gateway messages around the vault's own.
pub fn store_api_key(provider: &str, key: &str) -> (r: Result<(), String>)
    ensures
        r is Err ==> gateway_error(r->Err_0@, "Failed to create keyring entry: "@)
            || gateway_error(r->Err_0@, "Failed to store API key: "@),
{
    let name = api_key_entry_name(provider);
    match vault_entry(vault_service(), name.as_str()) {
        Ok(entry) => vault_set_password(&entry, key),
        Err(e) => Err(e),
    }
}

/// Retrieves the stored API key of `provider`; fails when the vault has no
/// entry for it or cannot be reached, with one of the two gateway messages
/// around the vault's own.
pub fn get_api_key(provider: &str) -> (r: Result<String, String>)
    ensures
        r is Err ==> gateway_error(r->Err_0@, "Failed to create keyring entry: "@)
            || gateway_error(r->Err_0@, "API key not found: "@),
{
    let name = api_key_entry_name(provider);
    match vault_entry(vault_service(), name.as_str()) {
        Ok(entry) => vault_get_password(&entry),
        Err(e) => Err(e),
    }
}

/// Removes the stored API key of `provider`; an absent entry fails like any
/// other vault error, with one of the two gateway messages around the
/// vault's own.
pub fn delete_api_key(provider: &str) -> (r: Result<(), String>)
    ensures
        r is Err ==> gateway_error(r->Err_0@, "Failed to create keyring entry: "@)
            || gateway_error(r->Err_0@, "Failed to delete API key: "@),
{
    let name = api_key_entry_name(provider);
    match vault_entry(vault_service(), name.as_str()) {
        Ok(entry) => vault_delete_credential(&entry),
        Err(e) => Err(e),
    }
}

/// Collapses a retrieval outcome to presence: `true` exactly on success.
/// An absent key and an unreachable vault both read as `false` — the two
/// are deliberately not distinguished.
pub fn presence_of(lookup: &Result<String, String>) -> (r: bool)
    ensures
        r == lookup is Ok,
{
    match lookup {
        Ok(_) => true,
        Err(_) => false,
    }
}

/// Reports whether `provider` has a stored API key: the collapse of one
/// retrieval attempt. Never fails.
pub fn has_api_key(provider: &str) -> (r: bool) {
    let lookup = get_api_key(provider);
    presence_of(&lookup)
}

} // verus!
