//! A route is one resolvable place of the bucket: a branch, an architecture
//! and a version, with the key prefix under which its objects lie.

use vstd::prelude::*;
use vstd::string::*;
use crate::config::Readiness;
use crate::natural::{compare_versions, natural_order, VersionOrder};
use crate::text::{from_chars, prefix_end, split_from, split_on, strip_prefix, texts, to_chars};

verus! {

/// What identifies a route.
pub struct RouteId {
    pub branch: Seq<char>,
    pub arch: Seq<char>,
    pub version: Seq<char>,
}

/// One resolvable artifact location.
#[derive(Debug)]
pub struct Route {
    pub branch: String,
    pub arch: String,
    pub version: String,
    pub path: String,
}

/// The key prefix of a route: `branch/arch/version`.
pub open spec fn canonical_path(id: RouteId) -> Seq<char> {
    id.branch + seq!['/'] + id.arch + seq!['/'] + id.version
}

/// The name of the object that marks a version as published.
pub open spec fn marker_name() -> Seq<char> {
    "repo"@
}

/// The route that a key of the bucket stands for, if any. The prefix is
/// taken from the key where the key starts with it; what is left is cut at
/// each `/`. The first three fields are branch, architecture and version;
/// a key with fewer fields is no route. With `marker` set the fourth field
/// must be there and be the marker name.
pub open spec fn parsed_route(key: Seq<char>, prefix: Seq<char>, marker: bool) -> Option<RouteId> {
    let fields = split_on(strip_prefix(key, prefix), '/');
    if fields.len() >= 3 && (!marker || (fields.len() >= 4 && fields[3] == marker_name())) {
        Some(RouteId { branch: fields[0], arch: fields[1], version: fields[2] })
    } else {
        None
    }
}

/// The name of the object that holds the checksum of the marker object.
pub open spec fn checksum_name() -> Seq<char> {
    "repo.sha256"@
}

/// The key, below the listing prefix, of the object `name` of a route.
pub open spec fn companion_key(id: RouteId, name: Seq<char>) -> Seq<char> {
    canonical_path(id) + seq!['/'] + name
}

/// Whether one of `keys`, taken without `prefix`, is `wanted`.
pub open spec fn holds_key(keys: Seq<Seq<char>>, prefix: Seq<char>, wanted: Seq<char>) -> bool {
    exists|i: int| 0 <= i < keys.len() && strip_prefix(#[trigger] keys[i], prefix) == wanted
}

/// Whether the listing `keys` holds both companion objects of a route: the
/// marker object and its checksum.
pub open spec fn is_ready(id: RouteId, keys: Seq<Seq<char>>, prefix: Seq<char>) -> bool {
    &&& holds_key(keys, prefix, companion_key(id, marker_name()))
    &&& holds_key(keys, prefix, companion_key(id, checksum_name()))
}

/// The route that `key` gives under the policy `readiness`, where `keys` is
/// the whole listing that `key` came with.
pub open spec fn accepted(
    key: Seq<char>,
    keys: Seq<Seq<char>>,
    prefix: Seq<char>,
    readiness: Readiness,
) -> Option<RouteId> {
    match readiness {
        Readiness::Listed => parsed_route(key, prefix, false),
        Readiness::Marker => parsed_route(key, prefix, true),
        Readiness::Companions => match parsed_route(key, prefix, false) {
            Some(id) => if is_ready(id, keys, prefix) {
                Some(id)
            } else {
                None
            },
            None => None,
        },
    }
}

impl View for Route {
    type V = RouteId;

    open spec fn view(&self) -> RouteId {
        RouteId { branch: self.branch@, arch: self.arch@, version: self.version@ }
    }
}

/// Derives the key prefix of a route from its identity.
pub fn derive_path(branch: &String, arch: &String, version: &String) -> (path: String)
    ensures
        path@ == canonical_path(RouteId { branch: branch@, arch: arch@, version: version@ }),
{
    let mut path = branch.clone();
    path.push('/');
    path.append(arch.as_str());
    path.push('/');
    path.append(version.as_str());
    assert(path@ =~= canonical_path(RouteId { branch: branch@, arch: arch@, version: version@ }));
    path
}

impl Route {
    /// The path is the one derived from branch, architecture and version.
    pub open spec fn wf(&self) -> bool {
        self.path@ == canonical_path(self@)
    }

    /// The route of the given branch, architecture and version.
    pub fn new(branch: String, arch: String, version: String) -> (route: Route)
        ensures
            route.wf(),
            route@ == (RouteId { branch: branch@, arch: arch@, version: version@ }),
    {
        let path = derive_path(&branch, &arch, &version);
        Route { branch, arch, version, path }
    }

    /// Whether this route is the one for `branch`, `arch` and `version`.
    pub fn is(&self, branch: &String, arch: &String, version: &String) -> (same: bool)
        ensures
            same == (self@ == RouteId { branch: branch@, arch: arch@, version: version@ }),
    {
        self.branch == *branch && self.arch == *arch && self.version == *version
    }

    /// How the version of this route stands to the version of `other` in
    /// natural order. Routes are ordered by version alone, which says
    /// something only of two routes of one branch and architecture.
    pub fn version_order(&self, other: &Route) -> (order: VersionOrder)
        ensures
            order == natural_order(self.version@, other.version@),
    {
        compare_versions(self.version.as_str(), other.version.as_str())
    }

    /// Whether this route lies under `branch` and `arch`.
    pub fn is_under(&self, branch: &String, arch: &String) -> (under: bool)
        ensures
            under == (self.branch@ == branch@ && self.arch@ == arch@),
    {
        self.branch == *branch && self.arch == *arch
    }
}

impl Clone for Route {
    fn clone(&self) -> (copy: Route)
        ensures
            copy@ == self@,
            copy.path@ == self.path@,
    {
        Route {
            branch: self.branch.clone(),
            arch: self.arch.clone(),
            version: self.version.clone(),
            path: self.path.clone(),
        }
    }
}

impl PartialEq for Route {
    /// Two routes are equal when branch, architecture and version are: the
    /// path is derived and takes no part.
    fn eq(&self, other: &Route) -> (same: bool) {
        if self.branch != other.branch {
            return false;
        }
        if self.arch != other.arch {
            return false;
        }
        if self.version != other.version {
            return false;
        }
        true
    }
}

impl vstd::std_specs::cmp::PartialEqSpecImpl for Route {
    open spec fn obeys_eq_spec() -> bool {
        true
    }

    open spec fn eq_spec(&self, other: &Route) -> bool {
        self@ == other@
    }
}

impl Eq for Route {

}

/// Parses one key of the bucket into the route it stands for.
pub fn parse_key(key: &str, prefix: &str, marker: bool) -> (route: Option<Route>)
    ensures
        route is Some == parsed_route(key@, prefix@, marker) is Some,
        route matches Some(r) ==> r.wf() && Some(r@) == parsed_route(key@, prefix@, marker),
{
    let chars = to_chars(key);
    let lead = to_chars(prefix);
    let at = prefix_end(&chars, &lead);
    let fields = split_from(&chars, at, '/');
    assert(texts(fields@) == split_on(strip_prefix(key@, prefix@), '/'));
    if fields.len() < 3 {
        return None;
    }
    assert(texts(fields@)[0] == fields[0]@);
    assert(texts(fields@)[1] == fields[1]@);
    assert(texts(fields@)[2] == fields[2]@);
    if marker {
        if fields.len() < 4 {
            return None;
        }
        assert(texts(fields@)[3] == fields[3]@);
        let name = "repo".to_owned();
        if fields[3] != name {
            return None;
        }
    }
    Some(Route::new(fields[0].clone(), fields[1].clone(), fields[2].clone()))
}

/// Whether one of `keys`, taken without the prefix `lead`, is `wanted`.
fn listing_holds(keys: &Vec<String>, lead: &Vec<char>, wanted: &String) -> (found: bool)
    ensures
        found == holds_key(texts(keys@), lead@, wanted@),
{
    let mut i: usize = 0;
    while i < keys.len()
        invariant
            i <= keys.len(),
            forall|k: int| 0 <= k < i ==> strip_prefix(#[trigger] texts(keys@)[k], lead@) != wanted@,
        decreases keys.len() - i,
    {
        let chars = to_chars(keys[i].as_str());
        let at = prefix_end(&chars, lead);
        let rest = from_chars(&chars, at, chars.len());
        assert(rest@ =~= chars@.skip(at as int));
        assert(texts(keys@)[i as int] == chars@);
        if rest == *wanted {
            return true;
        }
        i += 1;
    }
    false
}

/// Checks that the listing `keys` holds both companion objects of `route`.
/// The objects are looked for under the path derived from the identity of
/// the route.
pub fn is_route_ready(route: &Route, keys: &Vec<String>, prefix: &str) -> (ready: bool)
    ensures
        ready == is_ready(route@, texts(keys@), prefix@),
{
    let lead = to_chars(prefix);
    let path = derive_path(&route.branch, &route.arch, &route.version);
    let mut marker = path.clone();
    marker.push('/');
    marker.append("repo");
    assert(marker@ =~= companion_key(route@, marker_name()));
    if !listing_holds(keys, &lead, &marker) {
        return false;
    }
    let mut checksum = path;
    checksum.push('/');
    checksum.append("repo.sha256");
    assert(checksum@ =~= companion_key(route@, checksum_name()));
    listing_holds(keys, &lead, &checksum)
}

} // verus!
