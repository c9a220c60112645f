//! Configuration for flat-file data sources.
//!
//! The core never reads the environment itself: credential loading is an
//! external concern, and callers hand a finished configuration in. The
//! demo configuration carries recognizable placeholder values.

use vstd::prelude::*;

verus! {

/// Credentials and location of an S3 flat-files bucket.
#[derive(Debug, Clone)]
pub struct PolygonConfig {
    /// Access key identifier.
    pub access_key: String,
    /// Secret access key.
    pub secret_key: String,
    /// Endpoint URL of the object store.
    pub endpoint: String,
    /// Bucket name.
    pub bucket: String,
}

impl PolygonConfig {
    /// A demo configuration with placeholder credentials and the public
    /// flat-files endpoint and bucket.
    pub fn demo() -> (r: PolygonConfig)
        ensures
            r.access_key@ == "your_access_key_here"@,
            r.secret_key@ == "your_secret_key_here"@,
            r.endpoint@ == "https://files.polygon.io"@,
            r.bucket@ == "flatfiles"@,
    {
        PolygonConfig {
            access_key: str_owned("your_access_key_here"),
            secret_key: str_owned("your_secret_key_here"),
            endpoint: str_owned("https://files.polygon.io"),
            bucket: str_owned("flatfiles"),
        }
    }
}

/// Where flat files are read from.
#[derive(Debug, Clone)]
pub enum DataSource {
    /// An S3 bucket reached with the given configuration.
    S3(PolygonConfig),
    /// A local directory tree rooted at the given path.
    Local {
        /// Root directory of the local tree.
        root: String,
    },
}

impl DataSource {
    /// An S3 data source from a finished configuration.
    pub fn s3(config: PolygonConfig) -> (r: DataSource)
        ensures
            r matches DataSource::S3(c) && c == config,
    {
        DataSource::S3(config)
    }

    /// A local data source from a root directory path.
    pub fn local(root: String) -> (r: DataSource)
        ensures
            r matches DataSource::Local { root: rt } && rt == root,
    {
        DataSource::Local { root }
    }
}

/// Copy a string slice into an owned string.
fn str_owned(s: &str) -> (r: String)
    ensures
        r@ == s@,
{
    s.to_owned()
}

} // verus!
