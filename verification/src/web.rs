//! What each request is answered with, given the cache as it stands.
//!
//! Nothing here refreshes the cache: a caller that wants fresh data polls
//! the cache before it asks.

use vstd::prelude::*;
use vstd::string::*;
use crate::cache::RouteCache;
use crate::config::ConfigurationError;
use crate::index::{arch_column, branch_column, distinct, lookup_of, version_column};
use crate::public_url::{checked, file_reference, file_url, joined_url, public_prefix_of, result_text};
use crate::route::{canonical_path, Route, RouteId};
use crate::text::texts;

verus! {

/// The status of an answer that holds what was asked for.
pub const STATUS_OK: u16 = 200;

/// The status of an answer to a request for something that is not there.
pub const STATUS_NOT_FOUND: u16 = 404;

/// An answer: a status and a text.
#[derive(Debug)]
pub struct Reply {
    pub status: u16,
    pub body: String,
}

/// What std's `Debug` formatting writes for a string: the text between
/// double quotes, with escapes where the text needs them.
pub uninterp spec fn quoted(text: Seq<char>) -> Seq<char>;

/// Formats a string with `{:?}`, through the `Debug` impl of std for `str`.
#[verifier::external_body]
fn debug_text(text: &str) -> (out: String)
    ensures
        out@ == quoted(text@),
{
    format!("{:?}", text)
}

/// The names, each quoted, with a comma and a space between them.
pub open spec fn listed(names: Seq<Seq<char>>) -> Seq<char>
    decreases names.len(),
{
    if names.len() == 0 {
        Seq::empty()
    } else if names.len() == 1 {
        quoted(names[0])
    } else {
        listed(names.drop_last()) + ", "@ + quoted(names.last())
    }
}

/// A list of names as it is shown: in square brackets.
pub open spec fn shown_names(names: Seq<Seq<char>>) -> Seq<char> {
    "["@ + listed(names) + "]"@
}

/// A route as it is shown: its four fields by name.
pub open spec fn shown_route(id: RouteId, path: Seq<char>) -> Seq<char> {
    "Route { branch: "@ + quoted(id.branch) + ", arch: "@ + quoted(id.arch) + ", version: "@
        + quoted(id.version) + ", path: "@ + quoted(path) + " }"@
}

/// The text that answers a request for an unknown repository.
pub open spec fn invalid_repository() -> Seq<char> {
    "Invalid repository"@
}

/// The target that stands in for a route that is not there: one level up.
pub open spec fn fallback_target() -> Seq<char> {
    ".."@
}

/// Where a request for `file` of the route `id` is sent: to the file below
/// the route's path, seen from the public base; one level up where the
/// index holds no such route. A configuration without a public base is an
/// error whatever the route.
pub open spec fn target_of(cache: RouteCache, id: RouteId, file: Seq<char>) -> Result<
    Seq<char>,
    ConfigurationError,
> {
    match public_prefix_of(cache.config) {
        Err(e) => Err(e),
        Ok(base) => match lookup_of(cache.routes@, id) {
            None => Ok(fallback_target()),
            Some(found) => checked(joined_url(base, file_reference(canonical_path(found), file))),
        },
    }
}

/// Writes a list of names as it is shown.
pub fn show_names(names: &Vec<String>) -> (out: String)
    ensures
        out@ == shown_names(texts(names@)),
{
    let mut out = "[".to_owned();
    let ghost all = texts(names@);
    let mut i: usize = 0;
    assert(out@ =~= "["@ + listed(all.take(0)));
    while i < names.len()
        invariant
            i <= names.len(),
            all == texts(names@),
            out@ == "["@ + listed(all.take(i as int)),
        decreases names.len() - i,
    {
        let ghost before = listed(all.take(i as int));
        assert(all.take(i + 1).drop_last() =~= all.take(i as int));
        assert(all.take(i + 1).last() == names[i as int]@);
        if i > 0 {
            out.append(", ");
        }
        let item = debug_text(names[i].as_str());
        out.append(item.as_str());
        assert(out@ =~= "["@ + listed(all.take(i + 1))) by {
            if i == 0 {
                assert(before =~= Seq::<char>::empty());
                assert(all.take(1)[0] == names[0]@);
            }
        }
        i += 1;
    }
    assert(all.take(i as int) =~= all);
    out.append("]");
    out
}

/// Writes a route as it is shown.
pub fn show_route(route: &Route) -> (out: String)
    ensures
        out@ == shown_route(route@, route.path@),
{
    let mut out = "Route { branch: ".to_owned();
    let branch = debug_text(route.branch.as_str());
    out.append(branch.as_str());
    out.append(", arch: ");
    let arch = debug_text(route.arch.as_str());
    out.append(arch.as_str());
    out.append(", version: ");
    let version = debug_text(route.version.as_str());
    out.append(version.as_str());
    out.append(", path: ");
    let path = debug_text(route.path.as_str());
    out.append(path.as_str());
    out.append(" }");
    assert(out@ =~= shown_route(route@, route.path@));
    out
}

/// The answer to a request for a path that no handler knows.
pub fn sys_not_found() -> (body: String)
    ensures
        body@ == "Sorry, that's not a valid path!"@,
{
    "Sorry, that's not a valid path!".to_owned()
}

/// The answer to a health check. It does not look at the cache, so that a
/// refresh under way cannot hold it up.
pub fn sys_health() -> (reply: Reply)
    ensures
        reply.status == STATUS_OK,
        reply.body@ == "{{\"status\": \"OK\"}}"@,
{
    Reply { status: STATUS_OK, body: "{{\"status\": \"OK\"}}".to_owned() }
}

/// The answer to a request for the branches.
pub fn index(cache: &mut RouteCache) -> (reply: Reply)
    ensures
        *final(cache) == *old(cache),
        reply.status == STATUS_OK,
        reply.body@ == shown_names(distinct(branch_column(old(cache).routes@))),
{
    let names = cache.branches();
    Reply { status: STATUS_OK, body: show_names(&names) }
}

/// The answer to a request for the architectures of a branch.
pub fn index_branch(cache: &mut RouteCache, branch: &str) -> (reply: Reply)
    ensures
        *final(cache) == *old(cache),
        reply.status == STATUS_OK,
        reply.body@ == shown_names(distinct(arch_column(old(cache).routes@, branch@))),
{
    let names = cache.architectures(branch.to_owned());
    Reply { status: STATUS_OK, body: show_names(&names) }
}

/// The answer to a request for the versions of a branch and architecture.
pub fn index_arch(cache: &mut RouteCache, branch: &str, arch: &str) -> (reply: Reply)
    ensures
        *final(cache) == *old(cache),
        reply.status == STATUS_OK,
        reply.body@ == shown_names(distinct(version_column(old(cache).routes@, branch@, arch@))),
{
    let names = cache.versions(branch.to_owned(), arch.to_owned());
    Reply { status: STATUS_OK, body: show_names(&names) }
}

/// The answer to a request for one repository: the route as it is shown,
/// or the status for what is not there.
pub fn index_repo(cache: &mut RouteCache, branch: &str, arch: &str, version: &str) -> (reply: Reply)
    ensures
        *final(cache) == *old(cache),
        match lookup_of(
            old(cache).routes@,
            RouteId { branch: branch@, arch: arch@, version: version@ },
        ) {
            Some(id) => reply.status == STATUS_OK && reply.body@ == shown_route(
                id,
                canonical_path(id),
            ),
            None => reply.status == STATUS_NOT_FOUND && reply.body@ == invalid_repository(),
        },
{
    match cache.lookup_repo(branch.to_owned(), arch.to_owned(), version.to_owned()) {
        Some(route) => Reply { status: STATUS_OK, body: show_route(&route) },
        None => Reply { status: STATUS_NOT_FOUND, body: "Invalid repository".to_owned() },
    }
}

/// Where a request for a file of a repository is sent.
pub fn access_repo(
    cache: &mut RouteCache,
    branch: &str,
    arch: &str,
    version: &str,
    file: &str,
) -> (target: Result<String, ConfigurationError>)
    ensures
        *final(cache) == *old(cache),
        result_text(target) == target_of(
            *old(cache),
            RouteId { branch: branch@, arch: arch@, version: version@ },
            file@,
        ),
{
    let base = match cache.public_prefix() {
        Ok(base) => base,
        Err(e) => {
            return Err(e);
        },
    };
    match cache.lookup_repo(branch.to_owned(), arch.to_owned(), version.to_owned()) {
        Some(route) => file_url(base.as_str(), route.path.as_str(), file),
        None => Ok("..".to_owned()),
    }
}

} // verus!
