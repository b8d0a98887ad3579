//! The secret entity, its storage interface, and the store use case.
//!
//! A secret's payload is already encrypted when it arrives; this module only
//! sizes, keys and hands it to a store. The store interface mirrors a
//! put-with-TTL/get/delete key-value store; a load under a one-time download
//! policy removes the secret. An in-memory store backs the interface for
//! deployments and tests that need no external store.

use vstd::prelude::*;

verus! {

use crate::limits::ClientLimits;
use crate::text::str_eq;

/// What a stored payload represents.
#[derive(Clone, Copy, Debug, PartialEq, Eq, Structural)]
pub enum SecretContentType {
    Text,
    File,
}

/// How long a secret lives.
#[derive(Clone, Copy, Debug, PartialEq, Eq, Structural)]
pub enum SecretTTL {
    OneHour,
    TwoHours,
    OneDay,
    OneWeek,
}

/// Whether a secret survives being downloaded.
#[derive(Clone, Copy, Debug, PartialEq, Eq, Structural)]
pub enum SecretDownloadPolicy {
    OneTime,
    Unlimited,
}

/// Metadata of an uploaded file.
#[derive(Clone, Debug, PartialEq)]
pub struct SecretFileMetadata {
    pub name: String,
    pub mime_type: String,
    pub size: u64,
}

/// A stored secret: the payload is encrypted on the client side and opaque
/// here.
#[derive(Clone, Debug, PartialEq)]
pub struct Secret {
    pub id: String,
    pub content_type: SecretContentType,
    pub metadata: SecretFileMetadata,
    pub payload: String,
    pub ttl: SecretTTL,
    pub download_policy: SecretDownloadPolicy,
}

impl SecretTTL {
    /// The lifetime in seconds a store gives the secret.
    pub fn ttl_seconds(&self) -> (r: u64)
        ensures
            r == match self {
                SecretTTL::OneHour => 3600u64,
                SecretTTL::TwoHours => 7200u64,
                SecretTTL::OneDay => 86400u64,
                SecretTTL::OneWeek => 604800u64,
            },
    {
        match self {
            SecretTTL::OneHour => 60 * 60,
            SecretTTL::TwoHours => 60 * 60 * 2,
            SecretTTL::OneDay => 60 * 60 * 24,
            SecretTTL::OneWeek => 60 * 60 * 24 * 7,
        }
    }
}

/// A store failed to carry out an operation.
#[derive(Clone, Copy, Debug, PartialEq, Eq, Structural)]
pub struct StorageError;

/// A put-with-TTL/get/delete store of secrets. Implementations outside this
/// library are not verified; the in-memory store below is.
pub trait SecretStorage {
    /// Stores the secret under the id; an id already present is kept, not
    /// overwritten.
    fn store(&mut self, id: &str, secret: &Secret) -> Result<(), StorageError>;

    /// Loads the secret under the id; a one-time secret is removed by the
    /// load that returns it.
    fn load(&mut self, id: &str) -> Result<Option<Secret>, StorageError>;

    /// Removes the secret under the id; an absent id is no error.
    fn remove(&mut self, id: &str) -> Result<(), StorageError>;
}

fn clone_secret(s: &Secret) -> (r: Secret)
    ensures
        r == *s,
{
    Secret {
        id: s.id.clone(),
        content_type: s.content_type,
        metadata: SecretFileMetadata {
            name: s.metadata.name.clone(),
            mime_type: s.metadata.mime_type.clone(),
            size: s.metadata.size,
        },
        payload: s.payload.clone(),
        ttl: s.ttl,
        download_policy: s.download_policy,
    }
}

/// The position of the first stored entry with the id, if any.
pub open spec fn find_stored_spec(entries: Seq<(String, Secret)>, id: Seq<char>) -> Option<int>
    decreases entries.len(),
{
    if entries.len() == 0 {
        None
    } else if entries[0].0@ == id {
        Some(0int)
    } else {
        match find_stored_spec(entries.drop_first(), id) {
            Some(i) => Some(i + 1),
            None => None,
        }
    }
}

proof fn lemma_find_stored_at(entries: Seq<(String, Secret)>, id: Seq<char>, i: int)
    requires
        0 <= i < entries.len(),
        entries[i].0@ == id,
        forall|j: int| 0 <= j < i ==> (#[trigger] entries[j].0@) != id,
    ensures
        find_stored_spec(entries, id) == Some(i),
    decreases i,
{
    if i > 0 {
        let t = entries.drop_first();
        assert(forall|j: int| 0 <= j < i - 1 ==> (#[trigger] t[j].0@) != id);
        lemma_find_stored_at(t, id, i - 1);
    }
}

proof fn lemma_find_stored_none(entries: Seq<(String, Secret)>, id: Seq<char>)
    requires
        forall|j: int| 0 <= j < entries.len() ==> (#[trigger] entries[j].0@) != id,
    ensures
        find_stored_spec(entries, id) is None,
    decreases entries.len(),
{
    if entries.len() > 0 {
        lemma_find_stored_none(entries.drop_first(), id);
    }
}

/// An in-memory store: a verified reference implementation of the storage
/// interface, also backing tests.
#[derive(Clone, Debug)]
pub struct MemorySecretStorage {
    pub entries: Vec<(String, Secret)>,
}

impl MemorySecretStorage {
    /// An empty store.
    pub fn new() -> (r: MemorySecretStorage)
        ensures
            r.entries@ == Seq::<(String, Secret)>::empty(),
    {
        let r = MemorySecretStorage { entries: Vec::new() };
        proof {
            assert(r.entries@ =~= Seq::<(String, Secret)>::empty());
        }
        r
    }

    /// Stores the secret under the id unless the id is already present.
    pub fn store_secret_entry(&mut self, id: &str, secret: &Secret) -> (r: Result<
        (),
        StorageError,
    >)
        ensures
            r is Ok,
            match find_stored_spec(old(self).entries@, id@) {
                Some(_) => final(self).entries@ == old(self).entries@,
                None => {
                    &&& final(self).entries@.len() == old(self).entries@.len() + 1
                    &&& final(self).entries@.drop_last() == old(self).entries@
                    &&& final(self).entries@.last().0@ == id@
                    &&& final(self).entries@.last().1 == *secret
                },
            },
    {
        let ghost entries0 = self.entries@;
        let n = self.entries.len();
        let mut i: usize = 0;
        while i < n
            invariant
                0 <= i <= n,
                n == self.entries@.len(),
                entries0 == old(self).entries@,
                entries0 == self.entries@,
                forall|j: int| 0 <= j < i ==> (#[trigger] entries0[j].0@) != id@,
            decreases n - i,
        {
            if str_eq(self.entries[i].0.as_str(), id) {
                proof {
                    lemma_find_stored_at(entries0, id@, i as int);
                }
                return Ok(());
            }
            i = i + 1;
        }
        proof {
            lemma_find_stored_none(entries0, id@);
        }
        let owned_id = id.to_owned();
        self.entries.push((owned_id, clone_secret(secret)));
        Ok(())
    }

    /// Loads the secret under the id; a one-time secret is removed by the
    /// load that returns it.
    pub fn load_secret_entry(&mut self, id: &str) -> (r: Result<Option<Secret>, StorageError>)
        ensures
            r is Ok,
            match find_stored_spec(old(self).entries@, id@) {
                Some(i) => r == Ok::<Option<Secret>, StorageError>(
                    Some(old(self).entries@[i].1),
                ) && final(self).entries@ == (if old(self).entries@[i].1.download_policy
                    == SecretDownloadPolicy::OneTime {
                    old(self).entries@.remove(i)
                } else {
                    old(self).entries@
                }),
                None => r == Ok::<Option<Secret>, StorageError>(None) && final(self).entries@
                    == old(self).entries@,
            },
    {
        let ghost entries0 = self.entries@;
        let n = self.entries.len();
        let mut i: usize = 0;
        while i < n
            invariant
                0 <= i <= n,
                n == self.entries@.len(),
                entries0 == old(self).entries@,
                entries0 == self.entries@,
                forall|j: int| 0 <= j < i ==> (#[trigger] entries0[j].0@) != id@,
            decreases n - i,
        {
            if str_eq(self.entries[i].0.as_str(), id) {
                proof {
                    lemma_find_stored_at(entries0, id@, i as int);
                }
                let secret = clone_secret(&self.entries[i].1);
                if secret.download_policy == SecretDownloadPolicy::OneTime {
                    self.entries.remove(i);
                }
                return Ok(Some(secret));
            }
            i = i + 1;
        }
        proof {
            lemma_find_stored_none(entries0, id@);
        }
        Ok(None)
    }

    /// Removes the secret under the id; an absent id is no error.
    pub fn remove_secret_entry(&mut self, id: &str) -> (r: Result<(), StorageError>)
        ensures
            r is Ok,
            match find_stored_spec(old(self).entries@, id@) {
                Some(i) => final(self).entries@ == old(self).entries@.remove(i),
                None => final(self).entries@ == old(self).entries@,
            },
    {
        let ghost entries0 = self.entries@;
        let n = self.entries.len();
        let mut i: usize = 0;
        while i < n
            invariant
                0 <= i <= n,
                n == self.entries@.len(),
                entries0 == old(self).entries@,
                entries0 == self.entries@,
                forall|j: int| 0 <= j < i ==> (#[trigger] entries0[j].0@) != id@,
            decreases n - i,
        {
            if str_eq(self.entries[i].0.as_str(), id) {
                proof {
                    lemma_find_stored_at(entries0, id@, i as int);
                }
                self.entries.remove(i);
                return Ok(());
            }
            i = i + 1;
        }
        proof {
            lemma_find_stored_none(entries0, id@);
        }
        Ok(())
    }
}

impl SecretStorage for MemorySecretStorage {
    fn store(&mut self, id: &str, secret: &Secret) -> Result<(), StorageError> {
        self.store_secret_entry(id, secret)
    }

    fn load(&mut self, id: &str) -> Result<Option<Secret>, StorageError> {
        self.load_secret_entry(id)
    }

    fn remove(&mut self, id: &str) -> Result<(), StorageError> {
        self.remove_secret_entry(id)
    }
}

/// The connection URL used when none is configured.
pub const DEFAULT_REDIS_CNN_URL: &'static str = "redis://127.0.0.1";

/// A store backed by an external key-value service, identified by its
/// connection URL. The library holds the configuration; the network calls
/// themselves live with the transport around it.
#[derive(Clone, Debug)]
pub struct RedisSecretStorage {
    pub cnn_url: String,
}

impl RedisSecretStorage {
    /// Remembers the connection URL, for example `redis://127.0.0.1/`.
    pub fn new(cnn_url: &str) -> (r: RedisSecretStorage)
        ensures
            r.cnn_url@ == cnn_url@,
    {
        RedisSecretStorage { cnn_url: cnn_url.to_owned() }
    }

    /// The connection URL this store was built with.
    pub fn connection_url(&self) -> (r: &str)
        ensures
            r@ == self.cnn_url@,
    {
        self.cnn_url.as_str()
    }
}

/// Why a secret was not stored.
#[derive(Clone, Copy, Debug, PartialEq, Eq, Structural)]
pub enum StoreSecretError {
    /// The payload exceeds the caller's effective encrypted ceiling.
    PayloadTooLarge,
    /// File payloads are not accepted by this deployment.
    FileUploadDisabled,
    /// The store reported a failure.
    StorageFailure,
}

/// Stores a secret if its payload fits the given ceiling. An oversized
/// payload is rejected before the store is touched; a fitting one is handed
/// to the store, whose own failure is the only other way to fail.
pub fn store_secret<S: SecretStorage>(
    secret_storage: &mut S,
    secret: &Secret,
    payload_max_length: u64,
) -> (r: Result<(), StoreSecretError>)
    ensures
        secret.payload@.len() > payload_max_length <==> r == Err::<(), StoreSecretError>(
            StoreSecretError::PayloadTooLarge,
        ),
        secret.payload@.len() > payload_max_length ==> *final(secret_storage)
            == *old(secret_storage),
        secret.payload@.len() <= payload_max_length ==> (r is Ok || r == Err::<
            (),
            StoreSecretError,
        >(StoreSecretError::StorageFailure)),
        r is Ok ==> secret.payload@.len() <= payload_max_length,
{
    let len = secret.payload.as_str().unicode_len();
    if (len as u64) <= payload_max_length {
        match secret_storage.store(secret.id.as_str(), secret) {
            Ok(_) => Ok(()),
            Err(_) => Err(StoreSecretError::StorageFailure),
        }
    } else {
        Err(StoreSecretError::PayloadTooLarge)
    }
}

/// Stores a secret for a request: rejects file payloads when file upload is
/// disabled, then sizes the payload against the caller's effective limits.
/// Both rejections happen before the store is touched.
pub fn store_secret_checked<S: SecretStorage>(
    secret_storage: &mut S,
    secret: &Secret,
    file_upload_enabled: bool,
    limits: &ClientLimits,
) -> (r: Result<(), StoreSecretError>)
    ensures
        (secret.content_type == SecretContentType::File && !file_upload_enabled) <==> r == Err::<
            (),
            StoreSecretError,
        >(StoreSecretError::FileUploadDisabled),
        (secret.content_type == SecretContentType::File && !file_upload_enabled)
            ==> *final(secret_storage) == *old(secret_storage),
        !(secret.content_type == SecretContentType::File && !file_upload_enabled) ==> {
            &&& (secret.payload@.len() > limits.encrypted_message_max_length <==> r == Err::<
                (),
                StoreSecretError,
            >(StoreSecretError::PayloadTooLarge))
            &&& (secret.payload@.len() > limits.encrypted_message_max_length
                ==> *final(secret_storage) == *old(secret_storage))
            &&& (secret.payload@.len() <= limits.encrypted_message_max_length ==> (r is Ok || r
                == Err::<(), StoreSecretError>(StoreSecretError::StorageFailure)))
        },
        r is Ok ==> secret.payload@.len() <= limits.encrypted_message_max_length,
{
    if secret.content_type == SecretContentType::File && !file_upload_enabled {
        return Err(StoreSecretError::FileUploadDisabled);
    }
    store_secret(secret_storage, secret, limits.encrypted_message_max_length)
}

} // verus!
