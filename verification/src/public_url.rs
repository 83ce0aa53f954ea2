//! The public base under which the objects of the bucket can be reached, and
//! the targets that requests are sent on to.

use vstd::prelude::*;
use vstd::string::*;
use crate::config::{opt_text, ConfigurationError, RouteConfig, Setting};

verus! {

/// `url::ParseError`, the error of the URL parser, which is handed on as it
/// is and never looked into.
#[verifier::external_type_specification]
#[verifier::external_body]
pub struct ExParseError(url::ParseError);

/// The serialization of the URL that `url::Url::parse` reads from `input`,
/// or nothing where it reads none.
pub uninterp spec fn parsed_url(input: Seq<char>) -> Option<Seq<char>>;

/// The serialization of the URL that `url::Url::join` gives for the URL
/// written as `base` and the reference `reference`, or nothing where `base`
/// is no URL or the two do not join.
pub uninterp spec fn joined_url(base: Seq<char>, reference: Seq<char>) -> Option<Seq<char>>;

/// Calls `url::Url::parse` and hands back the serialization of the URL it
/// read. The parser reads nothing but its input.
#[verifier::external_body]
fn url_parse(input: &str) -> (parsed: Result<String, url::ParseError>)
    ensures
        parsed is Ok == parsed_url(input@) is Some,
        parsed matches Ok(text) ==> Some(text@) == parsed_url(input@),
{
    match url::Url::parse(input) {
        Ok(parsed) => Ok(String::from(parsed)),
        Err(e) => Err(e),
    }
}

/// Reads `base` with `url::Url::parse`, resolves `reference` against it with
/// `url::Url::join`, and hands back the serialization of the result.
#[verifier::external_body]
fn url_join(base: &str, reference: &str) -> (joined: Result<String, url::ParseError>)
    ensures
        joined is Ok == joined_url(base@, reference@) is Some,
        joined matches Ok(text) ==> Some(text@) == joined_url(base@, reference@),
{
    match url::Url::parse(base) {
        Ok(parsed) => match parsed.join(reference) {
            Ok(joined) => Ok(String::from(joined)),
            Err(e) => Err(e),
        },
        Err(e) => Err(e),
    }
}

/// The text from which the public base is read: the configured public base
/// where there is one, else endpoint, bucket and key prefix, each followed
/// by a slash (an empty prefix adds nothing). Without a public base, the
/// endpoint and the bucket are both needed.
pub open spec fn base_text(config: RouteConfig) -> Result<Seq<char>, ConfigurationError> {
    match opt_text(config.s3_public) {
        Some(public) => Ok(public),
        None => match (opt_text(config.s3_endpoint), opt_text(config.s3_bucket)) {
            (Some(endpoint), Some(bucket)) => {
                let root = endpoint + seq!['/'] + bucket + seq!['/'];
                match opt_text(config.s3_prefix) {
                    Some(prefix) => if prefix.len() > 0 {
                        Ok(root + prefix + seq!['/'])
                    } else {
                        Ok(root)
                    },
                    None => Ok(root),
                }
            },
            (None, _) => Err(ConfigurationError::Missing(Setting::Endpoint)),
            (Some(_), None) => Err(ConfigurationError::Missing(Setting::Bucket)),
        },
    }
}

/// What a parsed text gives as public URL.
pub open spec fn checked(parsed: Option<Seq<char>>) -> Result<Seq<char>, ConfigurationError> {
    match parsed {
        Some(text) => Ok(text),
        None => Err(ConfigurationError::InvalidUrl),
    }
}

/// The public base of `config`, as a URL.
pub open spec fn public_prefix_of(config: RouteConfig) -> Result<Seq<char>, ConfigurationError> {
    match base_text(config) {
        Ok(base) => checked(parsed_url(base)),
        Err(e) => Err(e),
    }
}

/// The text of a result.
pub open spec fn result_text(value: Result<String, ConfigurationError>) -> Result<
    Seq<char>,
    ConfigurationError,
> {
    match value {
        Ok(text) => Ok(text@),
        Err(e) => Err(e),
    }
}

/// Puts together the text from which the public base is read.
pub fn public_base(config: &RouteConfig) -> (base: Result<String, ConfigurationError>)
    ensures
        result_text(base) == base_text(*config),
{
    match &config.s3_public {
        Some(public) => Ok(public.clone()),
        None => {
            match (&config.s3_endpoint, &config.s3_bucket) {
                (Some(endpoint), Some(bucket)) => {
                    let mut base = endpoint.clone();
                    base.push('/');
                    base.append(bucket.as_str());
                    base.push('/');
                    let ghost root = endpoint@ + seq!['/'] + bucket@ + seq!['/'];
                    assert(base@ =~= root);
                    match &config.s3_prefix {
                        Some(prefix) => {
                            if !prefix.as_str().is_empty() {
                                base.append(prefix.as_str());
                                base.push('/');
                                assert(base@ =~= root + prefix@ + seq!['/']);
                            }
                        },
                        None => {},
                    }
                    Ok(base)
                },
                (None, _) => Err(ConfigurationError::Missing(Setting::Endpoint)),
                (Some(_), None) => Err(ConfigurationError::Missing(Setting::Bucket)),
            }
        },
    }
}

/// Turns what the URL parser answered into the public URL or the error of
/// this library.
pub fn checked_url(parsed: Result<String, url::ParseError>) -> (url: Result<
    String,
    ConfigurationError,
>)
    ensures
        parsed matches Ok(text) ==> url is Ok && url->Ok_0@ == text@,
        parsed is Err ==> url == Err::<String, ConfigurationError>(
            ConfigurationError::InvalidUrl,
        ),
{
    match parsed {
        Ok(text) => Ok(text),
        Err(_) => Err(ConfigurationError::InvalidUrl),
    }
}

/// The public base of `config` as a URL.
pub fn public_prefix(config: &RouteConfig) -> (url: Result<String, ConfigurationError>)
    ensures
        result_text(url) == public_prefix_of(*config),
{
    match public_base(config) {
        Ok(base) => checked_url(url_parse(base.as_str())),
        Err(e) => Err(e),
    }
}

/// The reference of a file below a route: the route's path, a slash, and
/// the file.
pub open spec fn file_reference(path: Seq<char>, file: Seq<char>) -> Seq<char> {
    path + seq!['/'] + file
}

/// The URL of `file` below the route at `path`, seen from the public base
/// `base`.
pub fn file_url(base: &str, path: &str, file: &str) -> (url: Result<String, ConfigurationError>)
    ensures
        result_text(url) == checked(joined_url(base@, file_reference(path@, file@))),
{
    let mut reference = path.to_owned();
    reference.push('/');
    reference.append(file);
    assert(reference@ =~= file_reference(path@, file@));
    checked_url(url_join(base, reference.as_str()))
}

} // verus!
