//! The operating parameters of the route cache, and how they are put
//! together from the raw settings that the process was started with.

use vstd::prelude::*;
use vstd::string::*;
use crate::text::{parse_u64, parsed_u64, sanitize_string, without_newlines};

verus! {

/// A setting without which the cache cannot run.
#[derive(Clone, Copy, Debug, PartialEq, Eq, Structural)]
pub enum Setting {
    Endpoint,
    Bucket,
    Key,
    Secret,
}

/// Why a configuration cannot be used.
#[derive(Clone, Copy, Debug, PartialEq, Eq, Structural)]
pub enum ConfigurationError {
    /// A required setting is not there.
    Missing(Setting),
    /// The time to live is no unsigned decimal number.
    InvalidTtl,
    /// The public base is no URL.
    InvalidUrl,
}

/// When a route found in the listing counts as published.
#[derive(Clone, Copy, Debug, PartialEq, Eq, Structural)]
pub enum Readiness {
    /// Every key with a branch, an architecture and a version gives a route.
    Listed,
    /// Only a key whose fourth field is the marker object gives a route.
    Marker,
    /// A route counts only if the listing holds both of its companion
    /// objects, the repository file and its checksum.
    Companions,
}

/// The time to live that holds where none is set, in seconds.
pub const DEFAULT_TTL: u64 = 900;

/// The operating parameters of the route cache.
#[derive(Debug)]
pub struct RouteConfig {
    pub s3_public: Option<String>,
    pub cache_ttl: u64,
    pub s3_region: Option<String>,
    pub s3_endpoint: Option<String>,
    pub s3_bucket: Option<String>,
    pub s3_key: Option<String>,
    pub s3_secret: Option<String>,
    pub s3_prefix: Option<String>,
    pub readiness: Readiness,
}

/// The settings as they were read, before any of them is checked. One that
/// could not be read is `None`.
#[derive(Debug)]
pub struct RawSettings {
    pub s3_endpoint: Option<String>,
    pub s3_bucket: Option<String>,
    pub s3_key: Option<String>,
    pub s3_secret: Option<String>,
    pub s3_region: Option<String>,
    pub s3_prefix: Option<String>,
    pub s3_public: Option<String>,
    pub cache_ttl: Option<String>,
}

/// The text of an optional string.
pub open spec fn opt_text(value: Option<String>) -> Option<Seq<char>> {
    match value {
        Some(s) => Some(s@),
        None => None,
    }
}

/// A raw value as it is taken into the configuration: without line feeds.
pub open spec fn cleaned(raw: Option<String>) -> Option<Seq<char>> {
    match raw {
        Some(s) => Some(without_newlines(s@)),
        None => None,
    }
}

/// The time to live that a raw setting gives: the default where it is not
/// set, its value where it is a number, nothing where it is not.
pub open spec fn ttl_of(raw: Option<String>) -> Option<u64> {
    match raw {
        Some(s) => parsed_u64(without_newlines(s@)),
        None => Some(DEFAULT_TTL),
    }
}

/// The first required setting that `raw` lacks, if any.
pub open spec fn first_missing(raw: RawSettings) -> Option<Setting> {
    if raw.s3_endpoint is None {
        Some(Setting::Endpoint)
    } else if raw.s3_bucket is None {
        Some(Setting::Bucket)
    } else if raw.s3_key is None {
        Some(Setting::Key)
    } else if raw.s3_secret is None {
        Some(Setting::Secret)
    } else {
        None
    }
}

/// Copies an optional string.
pub fn copy_text(value: &Option<String>) -> (copy: Option<String>)
    ensures
        copy == *value,
{
    match value {
        Some(s) => Some(s.clone()),
        None => None,
    }
}

/// Takes one raw setting into the configuration. A value is cleaned of line
/// feeds; a required setting that is not there is an error.
pub fn read_setting(raw: Option<String>, required: bool, which: Setting) -> (value: Result<
    Option<String>,
    ConfigurationError,
>)
    ensures
        raw is None && required ==> value == Err::<Option<String>, ConfigurationError>(
            ConfigurationError::Missing(which),
        ),
        !(raw is None && required) ==> value is Ok && opt_text(value->Ok_0) == cleaned(raw),
{
    match raw {
        Some(text) => Ok(Some(sanitize_string(text))),
        None => {
            if required {
                Err(ConfigurationError::Missing(which))
            } else {
                Ok(None)
            }
        },
    }
}

impl RouteConfig {
    /// Endpoint, bucket and both credentials are there.
    pub open spec fn complete(&self) -> bool {
        &&& self.s3_endpoint is Some
        &&& self.s3_bucket is Some
        &&& self.s3_key is Some
        &&& self.s3_secret is Some
    }

    /// The configuration that holds before anything is set.
    pub fn new() -> (config: RouteConfig)
        ensures
            config.s3_public is None,
            config.cache_ttl == DEFAULT_TTL,
            opt_text(config.s3_region) == Some(Seq::<char>::empty()),
            config.s3_endpoint is None,
            config.s3_bucket is None,
            config.s3_key is None,
            config.s3_secret is None,
            config.s3_prefix is None,
            config.readiness == Readiness::Listed,
    {
        RouteConfig {
            s3_public: None,
            cache_ttl: DEFAULT_TTL,
            s3_region: Some(String::new()),
            s3_endpoint: None,
            s3_bucket: None,
            s3_key: None,
            s3_secret: None,
            s3_prefix: None,
            readiness: Readiness::Listed,
        }
    }

    /// Builds the configuration from the raw settings. Endpoint, bucket, key
    /// and secret are required, and the first of them that is missing is
    /// reported; the other settings have defaults.
    pub fn init(raw: RawSettings) -> (config: Result<RouteConfig, ConfigurationError>)
        ensures
            first_missing(raw) matches Some(which) ==> config == Err::<
                RouteConfig,
                ConfigurationError,
            >(ConfigurationError::Missing(which)),
            first_missing(raw) is None && ttl_of(raw.cache_ttl) is None ==> config == Err::<
                RouteConfig,
                ConfigurationError,
            >(ConfigurationError::InvalidTtl),
            first_missing(raw) is None && ttl_of(raw.cache_ttl) is Some ==> config is Ok && ({
                let c = config->Ok_0;
                &&& c.complete()
                &&& opt_text(c.s3_endpoint) == cleaned(raw.s3_endpoint)
                &&& opt_text(c.s3_bucket) == cleaned(raw.s3_bucket)
                &&& opt_text(c.s3_key) == cleaned(raw.s3_key)
                &&& opt_text(c.s3_secret) == cleaned(raw.s3_secret)
                &&& opt_text(c.s3_region) == cleaned(raw.s3_region)
                &&& opt_text(c.s3_prefix) == cleaned(raw.s3_prefix)
                &&& opt_text(c.s3_public) == cleaned(raw.s3_public)
                &&& Some(c.cache_ttl) == ttl_of(raw.cache_ttl)
                &&& c.readiness == Readiness::Listed
            }),
    {
        let mut config = RouteConfig::new();
        match read_setting(raw.s3_endpoint, true, Setting::Endpoint) {
            Ok(value) => {
                config.s3_endpoint = value;
            },
            Err(e) => {
                return Err(e);
            },
        }
        match read_setting(raw.s3_bucket, true, Setting::Bucket) {
            Ok(value) => {
                config.s3_bucket = value;
            },
            Err(e) => {
                return Err(e);
            },
        }
        match read_setting(raw.s3_key, true, Setting::Key) {
            Ok(value) => {
                config.s3_key = value;
            },
            Err(e) => {
                return Err(e);
            },
        }
        match read_setting(raw.s3_secret, true, Setting::Secret) {
            Ok(value) => {
                config.s3_secret = value;
            },
            Err(e) => {
                return Err(e);
            },
        }
        match read_setting(raw.s3_region, false, Setting::Endpoint) {
            Ok(value) => {
                config.s3_region = value;
            },
            Err(e) => {
                return Err(e);
            },
        }
        match config.overlay_env(raw.s3_prefix, raw.s3_public, raw.cache_ttl) {
            Ok(()) => Ok(config),
            Err(e) => Err(e),
        }
    }

    /// Lays the optional settings over the configuration: the key prefix,
    /// the public base and the time to live. Prefix and public base are
    /// taken as they are, cleaned of line feeds. A time to live that is no
    /// number is an error, and the one in place stays.
    pub fn overlay_env(
        &mut self,
        prefix: Option<String>,
        public: Option<String>,
        cache_ttl: Option<String>,
    ) -> (done: Result<(), ConfigurationError>)
        ensures
            opt_text(final(self).s3_prefix) == cleaned(prefix),
            opt_text(final(self).s3_public) == cleaned(public),
            final(self).s3_region == old(self).s3_region,
            final(self).s3_endpoint == old(self).s3_endpoint,
            final(self).s3_bucket == old(self).s3_bucket,
            final(self).s3_key == old(self).s3_key,
            final(self).s3_secret == old(self).s3_secret,
            final(self).readiness == old(self).readiness,
            ttl_of(cache_ttl) matches Some(ttl) ==> done is Ok && final(self).cache_ttl == ttl,
            ttl_of(cache_ttl) is None ==> done == Err::<(), ConfigurationError>(
                ConfigurationError::InvalidTtl,
            ) && final(self).cache_ttl == old(self).cache_ttl,
    {
        self.s3_prefix =
        match prefix {
            Some(text) => Some(sanitize_string(text)),
            None => None,
        };
        self.s3_public =
        match public {
            Some(text) => Some(sanitize_string(text)),
            None => None,
        };
        let ttl = match cache_ttl {
            Some(text) => {
                let clean = sanitize_string(text);
                parse_u64(clean.as_str())
            },
            None => Some(DEFAULT_TTL),
        };
        match ttl {
            Some(seconds) => {
                self.cache_ttl = seconds;
                Ok(())
            },
            None => Err(ConfigurationError::InvalidTtl),
        }
    }
}

impl Clone for RouteConfig {
    fn clone(&self) -> (copy: RouteConfig)
        ensures
            copy == *self,
    {
        RouteConfig {
            s3_public: copy_text(&self.s3_public),
            cache_ttl: self.cache_ttl,
            s3_region: copy_text(&self.s3_region),
            s3_endpoint: copy_text(&self.s3_endpoint),
            s3_bucket: copy_text(&self.s3_bucket),
            s3_key: copy_text(&self.s3_key),
            s3_secret: copy_text(&self.s3_secret),
            s3_prefix: copy_text(&self.s3_prefix),
            readiness: self.readiness,
        }
    }
}

} // verus!
