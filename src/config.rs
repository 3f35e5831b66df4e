//! Service configuration, as plain values.
use vstd::prelude::*;

verus! {

/// Where blobs are kept.
#[derive(Clone, Debug)]
pub enum EmotesConfigStorageProvider {
    Local(LocalStorageProviderConfig),
    S3(S3StorageProviderConfig),
}

#[derive(Clone, Debug)]
pub struct EmotesConfig {
    pub db_url: String,
    pub db_max_connections: u32,
    pub data_dir: String,
    pub http_bind: String,
    pub storage_provider: EmotesConfigStorageProvider,
}

/// Blobs in a directory of the local file system.
#[derive(Clone, Debug)]
pub struct LocalStorageProviderConfig {
    pub data_dir: String,
}

/// A local blob store rooted at a directory.
#[derive(Clone, Debug)]
pub struct LocalStorageProvider {
    pub base_path: String,
}

impl LocalStorageProvider {
    pub fn new(config: &LocalStorageProviderConfig) -> (r: Self)
        ensures
            r.base_path@ == config.data_dir@,
    {
        LocalStorageProvider { base_path: config.data_dir.clone() }
    }
}

#[derive(Clone, Debug)]
pub struct S3CredentialsConfig {
    pub access_key: Option<String>,
    pub secret_key: Option<String>,
    pub security_token: Option<String>,
    pub session_token: Option<String>,
    pub profile: Option<String>,
}

/// Blobs in an S3 bucket.
#[derive(Clone, Debug)]
pub struct S3StorageProviderConfig {
    pub bucket: String,
    pub region: String,
    pub credentials: S3CredentialsConfig,
}

/// The address the HTTP server binds when none is configured.
pub fn default_bind() -> (r: String)
    ensures
        r@ == "127.0.0.1:8080"@,
{
    "127.0.0.1:8080".to_owned()
}

} // verus!
