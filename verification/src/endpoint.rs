//! Storage endpoints as they are written in a settings file, and the
//! connection settings that are made of them.

use vstd::prelude::*;
use vstd::string::*;
use crate::config::{copy_text, opt_text, ConfigurationError, RouteConfig, Setting};

verus! {

/// One storage endpoint of a settings file.
#[derive(Debug)]
pub struct Endpoint {
    pub public_url: String,
    pub bucket_prefix: Option<String>,
    pub s3_endpoint: Option<String>,
    pub s3_bucket: Option<String>,
    pub s3_key: Option<String>,
    pub s3_secret: Option<String>,
    pub s3_region: Option<String>,
}

/// One object of an architecture, with the version read from its name.
#[derive(Debug)]
pub struct Inventory {
    pub name: String,
    pub version: Option<String>,
}

/// The objects found under the prefix of one architecture.
#[derive(Debug)]
pub struct Architecture {
    pub prefix: String,
    pub latest: Option<Inventory>,
    pub objects: Vec<Inventory>,
}

/// The settings of a named endpoint.
#[derive(Debug)]
pub struct EndpointConfig {
    pub public_url: Option<String>,
    pub s3_endpoint: Option<String>,
    pub s3_bucket: Option<String>,
    pub s3_key: Option<String>,
    pub s3_secret: Option<String>,
}

/// A named endpoint.
#[derive(Debug)]
pub struct Endpoints {
    pub name: String,
    pub config: EndpointConfig,
}

/// What it takes to reach a bucket.
#[derive(Debug)]
pub struct Connection {
    pub endpoint: String,
    pub bucket: String,
    pub region: String,
    pub key: Option<String>,
    pub secret: Option<String>,
    pub prefix: String,
}

/// The region that holds where none is set.
pub open spec fn default_region() -> Seq<char> {
    "us-east-1"@
}

/// What a connection holds, as texts.
pub struct ConnectionText {
    pub endpoint: Seq<char>,
    pub bucket: Seq<char>,
    pub region: Seq<char>,
    pub key: Option<Seq<char>>,
    pub secret: Option<Seq<char>>,
    pub prefix: Seq<char>,
}

impl View for Connection {
    type V = ConnectionText;

    open spec fn view(&self) -> ConnectionText {
        ConnectionText {
            endpoint: self.endpoint@,
            bucket: self.bucket@,
            region: self.region@,
            key: opt_text(self.key),
            secret: opt_text(self.secret),
            prefix: self.prefix@,
        }
    }
}

/// `value` where it is there, else `fallback`.
pub open spec fn text_or(value: Option<String>, fallback: Seq<char>) -> Seq<char> {
    match value {
        Some(s) => s@,
        None => fallback,
    }
}

/// The text of a connection or the error in its place.
pub open spec fn connection_text(value: Result<Connection, ConfigurationError>) -> Result<
    ConnectionText,
    ConfigurationError,
> {
    match value {
        Ok(c) => Ok(c@),
        Err(e) => Err(e),
    }
}

impl PartialEq for Inventory {
    /// Two objects are the same when their names are.
    fn eq(&self, other: &Inventory) -> (same: bool) {
        self.name == other.name
    }
}

impl vstd::std_specs::cmp::PartialEqSpecImpl for Inventory {
    open spec fn obeys_eq_spec() -> bool {
        true
    }

    open spec fn eq_spec(&self, other: &Inventory) -> bool {
        self.name@ == other.name@
    }
}

impl PartialEq for Architecture {
    /// Two architectures are the same when their prefixes are.
    fn eq(&self, other: &Architecture) -> (same: bool) {
        self.prefix == other.prefix
    }
}

impl vstd::std_specs::cmp::PartialEqSpecImpl for Architecture {
    open spec fn obeys_eq_spec() -> bool {
        true
    }

    open spec fn eq_spec(&self, other: &Architecture) -> bool {
        self.prefix@ == other.prefix@
    }
}

impl Endpoint {
    /// The connection that this endpoint describes: endpoint, bucket, key
    /// and secret as set, the first of them that is missing being an error;
    /// the prefix `/` and the default region where these are not set.
    pub open spec fn connection_of(&self) -> Result<ConnectionText, ConfigurationError> {
        if self.s3_endpoint is None {
            Err(ConfigurationError::Missing(Setting::Endpoint))
        } else if self.s3_bucket is None {
            Err(ConfigurationError::Missing(Setting::Bucket))
        } else if self.s3_key is None {
            Err(ConfigurationError::Missing(Setting::Key))
        } else if self.s3_secret is None {
            Err(ConfigurationError::Missing(Setting::Secret))
        } else {
            Ok(
                ConnectionText {
                    endpoint: self.s3_endpoint->Some_0@,
                    bucket: self.s3_bucket->Some_0@,
                    region: text_or(self.s3_region, default_region()),
                    key: opt_text(self.s3_key),
                    secret: opt_text(self.s3_secret),
                    prefix: text_or(self.bucket_prefix, seq!['/']),
                },
            )
        }
    }

    /// Works out how the bucket of this endpoint is reached.
    pub fn connection(&self) -> (link: Result<Connection, ConfigurationError>)
        ensures
            connection_text(link) == self.connection_of(),
    {
        let prefix = match &self.bucket_prefix {
            Some(s) => s.clone(),
            None => {
                let mut slash = String::new();
                slash.push('/');
                assert(slash@ =~= seq!['/']);
                slash
            },
        };
        let endpoint = match &self.s3_endpoint {
            Some(s) => s.clone(),
            None => {
                return Err(ConfigurationError::Missing(Setting::Endpoint));
            },
        };
        let bucket = match &self.s3_bucket {
            Some(s) => s.clone(),
            None => {
                return Err(ConfigurationError::Missing(Setting::Bucket));
            },
        };
        let key = match &self.s3_key {
            Some(s) => s.clone(),
            None => {
                return Err(ConfigurationError::Missing(Setting::Key));
            },
        };
        let secret = match &self.s3_secret {
            Some(s) => s.clone(),
            None => {
                return Err(ConfigurationError::Missing(Setting::Secret));
            },
        };
        let region = match &self.s3_region {
            Some(s) => s.clone(),
            None => "us-east-1".to_owned(),
        };
        Ok(Connection { endpoint, bucket, region, key: Some(key), secret: Some(secret), prefix })
    }
}

impl RouteConfig {
    /// The connection that the configuration describes. Endpoint and bucket
    /// are needed; the credentials are handed on as they are, the region is
    /// the default where none is set, and the prefix is the one under which
    /// the bucket is listed.
    pub open spec fn connection_of(&self, prefix: Seq<char>) -> Result<
        ConnectionText,
        ConfigurationError,
    > {
        if self.s3_endpoint is None {
            Err(ConfigurationError::Missing(Setting::Endpoint))
        } else if self.s3_bucket is None {
            Err(ConfigurationError::Missing(Setting::Bucket))
        } else {
            Ok(
                ConnectionText {
                    endpoint: self.s3_endpoint->Some_0@,
                    bucket: self.s3_bucket->Some_0@,
                    region: text_or(self.s3_region, default_region()),
                    key: opt_text(self.s3_key),
                    secret: opt_text(self.s3_secret),
                    prefix,
                },
            )
        }
    }

    /// Works out how the bucket is reached and listed under `prefix`.
    pub fn connection(&self, prefix: String) -> (link: Result<Connection, ConfigurationError>)
        ensures
            connection_text(link) == self.connection_of(prefix@),
    {
        let endpoint = match &self.s3_endpoint {
            Some(s) => s.clone(),
            None => {
                return Err(ConfigurationError::Missing(Setting::Endpoint));
            },
        };
        let bucket = match &self.s3_bucket {
            Some(s) => s.clone(),
            None => {
                return Err(ConfigurationError::Missing(Setting::Bucket));
            },
        };
        let region = match &self.s3_region {
            Some(s) => s.clone(),
            None => "us-east-1".to_owned(),
        };
        Ok(
            Connection {
                endpoint,
                bucket,
                region,
                key: copy_text(&self.s3_key),
                secret: copy_text(&self.s3_secret),
                prefix,
            },
        )
    }
}

} // verus!
