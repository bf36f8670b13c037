use std::any::Any;
use std::collections::HashMap;
use std::sync::Mutex;
use std::sync::Once;
use std::sync::OnceLock;

use contextpad::secrets::api_key_entry_name;
use contextpad::secrets::delete_api_key;
use contextpad::secrets::get_api_key;
use contextpad::secrets::has_api_key;
use contextpad::secrets::store_api_key;
use keyring::credential::CredentialApi;
use keyring::credential::CredentialBuilderApi;
use keyring::Credential;
use keyring::CredentialBuilder;
use keyring::Error;

// An in-process credential store shared by every entry, so that secrets
// persist across separately created entries as a platform vault's would.
fn table() -> &'static Mutex<HashMap<(String, String), Vec<u8>>> {
    static TABLE: OnceLock<Mutex<HashMap<(String, String), Vec<u8>>>> = OnceLock::new();
    TABLE.get_or_init(|| Mutex::new(HashMap::new()))
}

struct SharedCredential {
    service: String,
    user: String,
}

impl SharedCredential {
    fn key(&self) -> (String, String) {
        (self.service.clone(), self.user.clone())
    }
}

impl CredentialApi for SharedCredential {
    fn set_secret(&self, secret: &[u8]) -> Result<(), Error> {
        table().lock().unwrap().insert(self.key(), secret.to_vec());
        Ok(())
    }

    fn get_secret(&self) -> Result<Vec<u8>, Error> {
        table().lock().unwrap().get(&self.key()).cloned().ok_or(Error::NoEntry)
    }

    fn delete_credential(&self) -> Result<(), Error> {
        table().lock().unwrap().remove(&self.key()).map(|_| ()).ok_or(Error::NoEntry)
    }

    fn as_any(&self) -> &dyn Any {
        self
    }
}

struct SharedStoreBuilder;

impl CredentialBuilderApi for SharedStoreBuilder {
    fn build(
        &self,
        _target: Option<&str>,
        service: &str,
        user: &str,
    ) -> Result<Box<Credential>, Error> {
        Ok(Box::new(SharedCredential { service: service.to_string(), user: user.to_string() }))
    }

    fn as_any(&self) -> &dyn Any {
        self
    }
}

fn use_shared_store() {
    static INSTALL: Once = Once::new();
    INSTALL.call_once(|| {
        keyring::set_default_credential_builder(Box::new(SharedStoreBuilder));
    });
}

#[test]
fn entry_name_prefixes_the_provider_unchanged() {
    assert_eq!(api_key_entry_name("openai"), "api_key_openai".to_string());
    assert_eq!(api_key_entry_name("OpenAI"), "api_key_OpenAI".to_string());
    assert_eq!(api_key_entry_name(""), "api_key_".to_string());
}

#[test]
fn stored_key_is_present_and_retrievable() {
    use_shared_store();
    store_api_key("alpha", "stored value").expect("store succeeds");
    assert!(has_api_key("alpha"));
    assert_eq!(get_api_key("alpha"), Ok("stored value".to_string()));
}

#[test]
fn deleted_key_is_absent() {
    use_shared_store();
    store_api_key("beta", "stored value").expect("store succeeds");
    assert!(has_api_key("beta"));
    delete_api_key("beta").expect("delete succeeds");
    assert!(!has_api_key("beta"));
}

#[test]
fn absent_key_reads_as_error_and_as_not_present() {
    use_shared_store();
    assert!(!has_api_key("never-stored"));
    let r = get_api_key("never-stored");
    assert!(r.is_err());
    assert!(r.unwrap_err().starts_with("API key not found:"));
}

#[test]
fn deleting_an_absent_key_fails() {
    use_shared_store();
    let r = delete_api_key("never-stored-either");
    assert!(r.is_err());
    assert!(r.unwrap_err().starts_with("Failed to delete API key:"));
}

#[test]
fn providers_are_case_sensitive() {
    use_shared_store();
    store_api_key("Gamma", "stored value").expect("store succeeds");
    assert!(has_api_key("Gamma"));
    assert!(!has_api_key("gamma"));
}

#[test]
fn storing_twice_overwrites() {
    use_shared_store();
    store_api_key("delta", "first stored value").expect("store succeeds");
    store_api_key("delta", "second stored value").expect("store succeeds");
    assert_eq!(get_api_key("delta"), Ok("second stored value".to_string()));
}
