//! The route index: the routes that are currently known, each once, in the
//! order in which they were found.

use vstd::prelude::*;
use vstd::string::*;
use crate::natural::{candidate_wins, natural_order, replaces_best, VersionOrder};
use crate::config::Readiness;
use crate::route::{accepted, is_route_ready, parse_key, Route, RouteId};
use crate::seqs::{lemma_push_contains, lemma_push_fresh};
use crate::text::texts;

verus! {

/// The identities of `routes`, in order.
pub open spec fn ids_of(routes: Seq<Route>) -> Seq<RouteId> {
    Seq::new(routes.len(), |i: int| routes[i]@)
}

/// `ids` with `id` added at the end, unless it is there already.
pub open spec fn inserted(ids: Seq<RouteId>, id: RouteId) -> Seq<RouteId> {
    if ids.contains(id) {
        ids
    } else {
        ids.push(id)
    }
}

/// The first occurrence of each name of `names`, in order.
pub open spec fn distinct(names: Seq<Seq<char>>) -> Seq<Seq<char>>
    decreases names.len(),
{
    if names.len() == 0 {
        names
    } else {
        let init = distinct(names.drop_last());
        if init.contains(names.last()) {
            init
        } else {
            init.push(names.last())
        }
    }
}

/// The branch of each route, in order.
pub open spec fn branch_column(ids: Seq<RouteId>) -> Seq<Seq<char>> {
    Seq::new(ids.len(), |i: int| ids[i].branch)
}

/// The architecture of each route of `branch`, in order.
pub open spec fn arch_column(ids: Seq<RouteId>, branch: Seq<char>) -> Seq<Seq<char>>
    decreases ids.len(),
{
    if ids.len() == 0 {
        Seq::empty()
    } else if ids.last().branch == branch {
        arch_column(ids.drop_last(), branch).push(ids.last().arch)
    } else {
        arch_column(ids.drop_last(), branch)
    }
}

/// The version of each route of `branch` and `arch`, in order.
pub open spec fn version_column(ids: Seq<RouteId>, branch: Seq<char>, arch: Seq<char>) -> Seq<
    Seq<char>,
>
    decreases ids.len(),
{
    if ids.len() == 0 {
        Seq::empty()
    } else if ids.last().branch == branch && ids.last().arch == arch {
        version_column(ids.drop_last(), branch, arch).push(ids.last().version)
    } else {
        version_column(ids.drop_last(), branch, arch)
    }
}

/// The route of `branch` and `arch` with the greatest version in natural
/// order. The routes are taken in order, and one takes the place of the best
/// so far unless the best is greater: of versions that compare equal, the
/// last one found is the latest.
pub open spec fn latest_of(ids: Seq<RouteId>, branch: Seq<char>, arch: Seq<char>) -> Option<
    RouteId,
>
    decreases ids.len(),
{
    if ids.len() == 0 {
        None
    } else {
        let best = latest_of(ids.drop_last(), branch, arch);
        let candidate = ids.last();
        if candidate.branch == branch && candidate.arch == arch {
            match best {
                None => Some(candidate),
                Some(b) => if replaces_best(natural_order(b.version, candidate.version)) {
                    Some(candidate)
                } else {
                    Some(b)
                },
            }
        } else {
            best
        }
    }
}

/// The version text that asks for the latest version.
pub open spec fn current_name() -> Seq<char> {
    "current"@
}

/// What a lookup finds: for the version `current` the latest route of the
/// branch and architecture, else the route with exactly that identity.
pub open spec fn lookup_of(ids: Seq<RouteId>, id: RouteId) -> Option<RouteId> {
    if id.version == current_name() {
        latest_of(ids, id.branch, id.arch)
    } else if ids.contains(id) {
        Some(id)
    } else {
        None
    }
}

/// The routes that the first keys of a listing give: the keys are taken in
/// order, and each route that one of them gives under the policy is added
/// unless it is there already. `all` is the whole listing.
pub open spec fn collected(
    keys: Seq<Seq<char>>,
    all: Seq<Seq<char>>,
    prefix: Seq<char>,
    readiness: Readiness,
) -> Seq<RouteId>
    decreases keys.len(),
{
    if keys.len() == 0 {
        Seq::empty()
    } else {
        let init = collected(keys.drop_last(), all, prefix, readiness);
        match accepted(keys.last(), all, prefix, readiness) {
            Some(id) => inserted(init, id),
            None => init,
        }
    }
}

/// The routes that a listing gives.
pub open spec fn indexed(keys: Seq<Seq<char>>, prefix: Seq<char>, readiness: Readiness) -> Seq<
    RouteId,
> {
    collected(keys, keys, prefix, readiness)
}


/// Whether a route lies under `branch` and `arch`.
pub open spec fn under(id: RouteId, branch: Seq<char>, arch: Seq<char>) -> bool {
    id.branch == branch && id.arch == arch
}

/// Whether natural order treats the versions of `ids` as an ordering
/// should: of two versions at most one is greater than the other, and a
/// version that is not greater than a second, which is not greater than a
/// third, is not greater than the third.
pub open spec fn orders_well(ids: Seq<RouteId>) -> bool {
    &&& forall|i: int, j: int|
        0 <= i < ids.len() && 0 <= j < ids.len() && (#[trigger] natural_order(
            ids[i].version,
            ids[j].version,
        )) is Greater ==> !(natural_order(ids[j].version, ids[i].version) is Greater)
    &&& forall|i: int, j: int, k: int|
        0 <= i < ids.len() && 0 <= j < ids.len() && 0 <= k < ids.len() && !((
        #[trigger] natural_order(ids[i].version, ids[j].version)) is Greater) && !((
        #[trigger] natural_order(ids[j].version, ids[k].version)) is Greater) ==> !(natural_order(
            ids[i].version,
            ids[k].version,
        ) is Greater)
}

/// Inserting a route a second time changes nothing: the index holds it
/// once.
pub proof fn lemma_insert_idempotent(ids: Seq<RouteId>, id: RouteId)
    requires
        ids.no_duplicates(),
    ensures
        inserted(inserted(ids, id), id) == inserted(ids, id),
        inserted(ids, id).no_duplicates(),
        inserted(ids, id).contains(id),
        forall|i: int, j: int|
            0 <= i < inserted(ids, id).len() && 0 <= j < inserted(ids, id).len() && inserted(
                ids,
                id,
            )[i] == id && inserted(ids, id)[j] == id ==> i == j,
{
    lemma_push_contains(ids, id, id);
    if !ids.contains(id) {
        lemma_push_fresh(ids, id);
    }
}

/// The distinct names are the names, each once.
pub proof fn lemma_distinct(names: Seq<Seq<char>>)
    ensures
        distinct(names).no_duplicates(),
        forall|x: Seq<char>| distinct(names).contains(x) <==> names.contains(x),
    decreases names.len(),
{
    if names.len() > 0 {
        let front = names.drop_last();
        let last = names.last();
        let init = distinct(front);
        lemma_distinct(front);
        assert(front.push(last) =~= names);
        assert forall|x: Seq<char>| distinct(names).contains(x) <==> names.contains(x) by {
            lemma_push_contains(front, last, x);
            lemma_push_contains(init, last, x);
        }
        if !init.contains(last) {
            lemma_push_fresh(init, last);
        }
    }
}

/// The architectures listed for a branch are those of its routes.
pub proof fn lemma_arch_column(ids: Seq<RouteId>, branch: Seq<char>, arch: Seq<char>)
    ensures
        arch_column(ids, branch).contains(arch) <==> exists|i: int|
            0 <= i < ids.len() && under(#[trigger] ids[i], branch, arch),
    decreases ids.len(),
{
    if ids.len() > 0 {
        let front = ids.drop_last();
        lemma_arch_column(front, branch, arch);
        if ids.last().branch == branch {
            lemma_push_contains(arch_column(front, branch), ids.last().arch, arch);
        }
        if arch_column(ids, branch).contains(arch) {
            if arch_column(front, branch).contains(arch) {
                let i = choose|i: int| 0 <= i < front.len() && under(#[trigger] front[i], branch, arch);
                assert(ids[i] == front[i]);
            } else {
                assert(under(ids[ids.len() - 1], branch, arch));
            }
        }
        if exists|i: int| 0 <= i < ids.len() && under(#[trigger] ids[i], branch, arch) {
            let i = choose|i: int| 0 <= i < ids.len() && under(#[trigger] ids[i], branch, arch);
            if i < front.len() {
                assert(under(front[i], branch, arch));
            }
        }
    }
}

/// The versions listed for a branch and architecture are those of their
/// routes.
pub proof fn lemma_version_column(ids: Seq<RouteId>, id: RouteId)
    ensures
        version_column(ids, id.branch, id.arch).contains(id.version) <==> ids.contains(id),
    decreases ids.len(),
{
    if ids.len() > 0 {
        let front = ids.drop_last();
        lemma_version_column(front, id);
        assert(front.push(ids.last()) =~= ids);
        lemma_push_contains(front, ids.last(), id);
        if under(ids.last(), id.branch, id.arch) {
            lemma_push_contains(
                version_column(front, id.branch, id.arch),
                ids.last().version,
                id.version,
            );
        }
    }
}

/// A listing gives each route once, and it gives exactly the routes that
/// its keys give under the policy.
pub proof fn lemma_collected(
    keys: Seq<Seq<char>>,
    all: Seq<Seq<char>>,
    prefix: Seq<char>,
    readiness: Readiness,
)
    ensures
        collected(keys, all, prefix, readiness).no_duplicates(),
        forall|id: RouteId|
            collected(keys, all, prefix, readiness).contains(id) <==> exists|k: int|
                0 <= k < keys.len() && accepted(#[trigger] keys[k], all, prefix, readiness) == Some(
                    id,
                ),
    decreases keys.len(),
{
    if keys.len() > 0 {
        let front = keys.drop_last();
        let init = collected(front, all, prefix, readiness);
        let here = collected(keys, all, prefix, readiness);
        let given = accepted(keys.last(), all, prefix, readiness);
        lemma_collected(front, all, prefix, readiness);
        match given {
            Some(found) => {
                if !init.contains(found) {
                    lemma_push_fresh(init, found);
                }
            },
            None => {},
        }
        assert forall|id: RouteId|
            here.contains(id) <==> exists|k: int|
                0 <= k < keys.len() && accepted(#[trigger] keys[k], all, prefix, readiness) == Some(
                    id,
                ) by {
            match given {
                Some(found) => {
                    lemma_push_contains(init, found, id);
                },
                None => {},
            }
            if here.contains(id) {
                if init.contains(id) {
                    let k = choose|k: int|
                        0 <= k < front.len() && accepted(
                            #[trigger] front[k],
                            all,
                            prefix,
                            readiness,
                        ) == Some(id);
                    assert(keys[k] == front[k]);
                } else {
                    assert(keys[keys.len() - 1] == keys.last());
                }
            }
            if exists|k: int|
                0 <= k < keys.len() && accepted(#[trigger] keys[k], all, prefix, readiness) == Some(
                    id,
                ) {
                let k = choose|k: int|
                    0 <= k < keys.len() && accepted(
                        #[trigger] keys[k],
                        all,
                        prefix,
                        readiness,
                    ) == Some(id);
                if k < front.len() {
                    assert(front[k] == keys[k]);
                }
            }
        }
    }
}

/// The latest route is one of the routes of the branch and architecture,
/// and there is one exactly where the index holds a route of the two.
pub proof fn lemma_latest_is_listed(ids: Seq<RouteId>, branch: Seq<char>, arch: Seq<char>)
    ensures
        latest_of(ids, branch, arch) matches Some(r) ==> ids.contains(r) && under(r, branch, arch),
        latest_of(ids, branch, arch) is None ==> forall|i: int|
            0 <= i < ids.len() ==> !under(#[trigger] ids[i], branch, arch),
    decreases ids.len(),
{
    if ids.len() > 0 {
        let front = ids.drop_last();
        lemma_latest_is_listed(front, branch, arch);
        assert(front.push(ids.last()) =~= ids);
        match latest_of(ids, branch, arch) {
            Some(r) => {
                lemma_push_contains(front, ids.last(), r);
            },
            None => {
                assert forall|i: int| 0 <= i < ids.len() implies !under(
                    #[trigger] ids[i],
                    branch,
                    arch,
                ) by {
                    if i < front.len() {
                        assert(front[i] == ids[i]);
                    }
                }
            },
        }
    }
}

/// The latest route is greater than every route of its branch and
/// architecture that was found after it.
pub proof fn lemma_latest_beats_later(
    ids: Seq<RouteId>,
    branch: Seq<char>,
    arch: Seq<char>,
    i: int,
    j: int,
)
    requires
        ids.no_duplicates(),
        0 <= i < j < ids.len(),
        latest_of(ids, branch, arch) == Some(ids[i]),
        under(ids[j], branch, arch),
    ensures
        natural_order(ids[i].version, ids[j].version) == VersionOrder::Greater,
    decreases ids.len(),
{
    let front = ids.drop_last();
    let last = ids.last();
    assert(ids[i] != last);
    assert(front[i] == ids[i]);
    if j < ids.len() - 1 {
        assert(front[j] == ids[j]);
        lemma_latest_beats_later(front, branch, arch, i, j);
    }
}

/// Where natural order treats the versions of the index as an ordering
/// should, no route of the branch and architecture is greater than the
/// latest.
pub proof fn lemma_latest_is_greatest(
    ids: Seq<RouteId>,
    branch: Seq<char>,
    arch: Seq<char>,
    j: int,
)
    requires
        orders_well(ids),
        0 <= j < ids.len(),
        under(ids[j], branch, arch),
    ensures
        latest_of(ids, branch, arch) matches Some(r) && !(natural_order(ids[j].version, r.version)
            is Greater),
{
    lemma_greatest_so_far(ids, branch, arch, ids.len() as int, j);
    assert(ids.take(ids.len() as int) =~= ids);
}

proof fn lemma_greatest_so_far(
    ids: Seq<RouteId>,
    branch: Seq<char>,
    arch: Seq<char>,
    n: int,
    j: int,
) -> (m: int)
    requires
        orders_well(ids),
        0 <= j < n <= ids.len(),
        under(ids[j], branch, arch),
    ensures
        0 <= m < n,
        latest_of(ids.take(n), branch, arch) == Some(ids[m]),
        !(natural_order(ids[j].version, ids[m].version) is Greater),
    decreases n,
{
    let here = ids.take(n);
    let front = here.drop_last();
    assert(front =~= ids.take(n - 1));
    assert(here.last() == ids[n - 1]);
    let c = n - 1;
    if j < n - 1 {
        let b = lemma_greatest_so_far(ids, branch, arch, n - 1, j);
        if under(ids[c], branch, arch) && replaces_best(
            natural_order(ids[b].version, ids[c].version),
        ) {
            assert(!(natural_order(ids[j].version, ids[b].version) is Greater));
            assert(!(natural_order(ids[b].version, ids[c].version) is Greater));
            c
        } else {
            b
        }
    } else {
        lemma_latest_is_listed(front, branch, arch);
        match latest_of(front, branch, arch) {
            None => {
                assert(natural_order(ids[c].version, ids[c].version) is Greater ==> !(
                natural_order(ids[c].version, ids[c].version) is Greater));
                c
            },
            Some(best) => {
                let b = choose|b: int| 0 <= b < front.len() && front[b] == best;
                assert(ids[b] == best);
                if replaces_best(natural_order(ids[b].version, ids[c].version)) {
                    assert(natural_order(ids[c].version, ids[c].version) is Greater ==> !(
                    natural_order(ids[c].version, ids[c].version) is Greater));
                    c
                } else {
                    assert(natural_order(ids[b].version, ids[c].version) is Greater);
                    b
                }
            },
        }
    }
}

/// A lookup of an identity that the index does not hold finds nothing,
/// unless it asks for the current version.
pub proof fn lemma_unknown_lookup(ids: Seq<RouteId>, id: RouteId)
    requires
        !ids.contains(id),
        id.version != current_name(),
    ensures
        lookup_of(ids, id) is None,
{
}

/// A lookup of the current version of a branch and architecture of which
/// the index holds no route finds nothing.
pub proof fn lemma_unknown_current(ids: Seq<RouteId>, branch: Seq<char>, arch: Seq<char>)
    requires
        forall|i: int| 0 <= i < ids.len() ==> !under(#[trigger] ids[i], branch, arch),
    ensures
        lookup_of(ids, RouteId { branch, arch, version: current_name() }) is None,
{
    lemma_latest_is_listed(ids, branch, arch);
    if latest_of(ids, branch, arch) is Some {
        let r = latest_of(ids, branch, arch)->Some_0;
        let i = choose|i: int| 0 <= i < ids.len() && ids[i] == r;
        assert(under(ids[i], branch, arch));
    }
}

/// The routes currently known.
#[derive(Debug)]
pub struct RouteIndex {
    routes: Vec<Route>,
}

impl View for RouteIndex {
    type V = Seq<RouteId>;

    closed spec fn view(&self) -> Seq<RouteId> {
        ids_of(self.routes@)
    }
}

/// Adds `name` to `names` unless it is there already.
fn push_distinct(names: &mut Vec<String>, name: &String)
    ensures
        texts(final(names)@) == (if texts(old(names)@).contains(name@) {
            texts(old(names)@)
        } else {
            texts(old(names)@).push(name@)
        }),
{
    let mut j: usize = 0;
    while j < names.len()
        invariant
            j <= names.len(),
            *names == *old(names),
            forall|k: int| 0 <= k < j ==> texts(names@)[k] != name@,
        decreases names.len() - j,
    {
        if names[j] == *name {
            assert(texts(names@)[j as int] == name@);
            return ;
        }
        j += 1;
    }
    names.push(name.clone());
    assert(texts(names@) =~= texts(old(names)@).push(name@));
}

impl Clone for RouteIndex {
    fn clone(&self) -> (copy: RouteIndex)
        ensures
            copy@ == self@,
    {
        proof {
            use_type_invariant(self);
        }
        let mut routes: Vec<Route> = Vec::new();
        let mut i: usize = 0;
        while i < self.routes.len()
            invariant
                i <= self.routes.len(),
                routes.len() == i,
                forall|k: int|
                    0 <= k < i ==> (#[trigger] routes[k])@ == self.routes[k]@ && routes[k].path@
                        == self.routes[k].path@,
            decreases self.routes.len() - i,
        {
            routes.push(self.routes[i].clone());
            i += 1;
        }
        proof {
            assert(ids_of(routes@) =~= self@);
            assert forall|k: int| 0 <= k < routes.len() implies (#[trigger] routes[k]).wf() by {
                assert(self.routes[k].wf());
            }
        }
        RouteIndex { routes }
    }
}

impl RouteIndex {
    /// No route occurs twice, and each has its derived path.
    #[verifier::type_invariant]
    closed spec fn wf(&self) -> bool {
        &&& ids_of(self.routes@).no_duplicates()
        &&& forall|i: int| 0 <= i < self.routes.len() ==> (#[trigger] self.routes[i]).wf()
    }

    /// The empty index.
    pub fn new() -> (index: RouteIndex)
        ensures
            index@ == Seq::<RouteId>::empty(),
    {
        let routes: Vec<Route> = Vec::new();
        assert(ids_of(routes@) =~= Seq::<RouteId>::empty());
        RouteIndex { routes }
    }

    /// The index of the routes that a listing of the bucket gives. `prefix`
    /// is the key prefix under which the bucket was listed.
    pub fn from_keys(keys: &Vec<String>, prefix: &str, readiness: Readiness) -> (index: RouteIndex)
        ensures
            index@ == indexed(texts(keys@), prefix@, readiness),
    {
        let mut index = RouteIndex::new();
        let ghost all = texts(keys@);
        let mut i: usize = 0;
        while i < keys.len()
            invariant
                i <= keys.len(),
                all == texts(keys@),
                index@ == collected(all.take(i as int), all, prefix@, readiness),
            decreases keys.len() - i,
        {
            assert(all.take(i + 1).drop_last() =~= all.take(i as int));
            assert(all.take(i + 1).last() == keys[i as int]@);
            let marker = match readiness {
                Readiness::Marker => true,
                _ => false,
            };
            match parse_key(keys[i].as_str(), prefix, marker) {
                Some(route) => {
                    let checked = match readiness {
                        Readiness::Companions => true,
                        _ => false,
                    };
                    if !index.contains(&route.branch, &route.arch, &route.version) {
                        if !checked || is_route_ready(&route, keys, prefix) {
                            index.push_new(route);
                        }
                    }
                },
                None => {},
            }
            i += 1;
        }
        assert(all.take(i as int) =~= all);
        index
    }

    /// How many routes the index holds.
    pub fn len(&self) -> (n: usize)
        ensures
            n == self@.len(),
    {
        self.routes.len()
    }

    /// The route at place `i` in the order of discovery.
    pub fn get(&self, i: usize) -> (route: &Route)
        requires
            i < self@.len(),
        ensures
            route@ == self@[i as int],
            route.wf(),
    {
        proof {
            use_type_invariant(self);
        }
        &self.routes[i]
    }

    /// Whether the index holds the route of this identity.
    pub fn contains(&self, branch: &String, arch: &String, version: &String) -> (found: bool)
        ensures
            found == self@.contains(RouteId { branch: branch@, arch: arch@, version: version@ }),
    {
        let ghost id = RouteId { branch: branch@, arch: arch@, version: version@ };
        let mut i: usize = 0;
        while i < self.routes.len()
            invariant
                i <= self.routes.len(),
                id == (RouteId { branch: branch@, arch: arch@, version: version@ }),
                forall|k: int| 0 <= k < i ==> self@[k] != id,
            decreases self.routes.len() - i,
        {
            if self.routes[i].is(branch, arch, version) {
                assert(self@[i as int] == id);
                return true;
            }
            i += 1;
        }
        false
    }

    /// Puts a route that the index does not hold at its end.
    fn push_new(&mut self, route: Route)
        requires
            route.wf(),
            !old(self)@.contains(route@),
        ensures
            final(self)@ == old(self)@.push(route@),
    {
        let mut held = RouteIndex::new();
        proof {
            use_type_invariant(&*self);
            use_type_invariant(&held);
        }
        std::mem::swap(self, &mut held);
        let mut routes = held.routes;
        routes.push(route);
        proof {
            lemma_push_fresh(held@, route@);
            assert(ids_of(routes@) =~= held@.push(route@));
            assert forall|i: int| 0 <= i < routes.len() implies (#[trigger] routes[i]).wf() by {
                if i < held.routes.len() {
                    assert(held.routes[i].wf());
                }
            }
        }
        *self = RouteIndex { routes };
    }

    /// Adds `route` unless a route of the same branch, architecture and
    /// version is there already. Says whether it was added. The path under
    /// which the route is kept is the one derived from its identity.
    pub fn insert(&mut self, route: Route) -> (added: bool)
        ensures
            final(self)@ == inserted(old(self)@, route@),
            final(self)@.no_duplicates(),
            added == !old(self)@.contains(route@),
    {
        proof {
            use_type_invariant(&*self);
        }
        if self.contains(&route.branch, &route.arch, &route.version) {
            return false;
        }
        proof {
            lemma_push_fresh(self@, route@);
        }
        self.push_new(Route::new(route.branch, route.arch, route.version));
        true
    }

    /// The branches, each once, in the order in which they were found.
    pub fn branches(&self) -> (names: Vec<String>)
        ensures
            texts(names@) == distinct(branch_column(self@)),
    {
        let mut names: Vec<String> = Vec::new();
        let mut i: usize = 0;
        assert(branch_column(self@.take(0)) =~= Seq::<Seq<char>>::empty());
        assert(texts(names@) =~= distinct(branch_column(self@.take(0))));
        while i < self.routes.len()
            invariant
                i <= self.routes.len(),
                texts(names@) == distinct(branch_column(self@.take(i as int))),
            decreases self.routes.len() - i,
        {
            let ghost column = branch_column(self@.take(i as int));
            let ghost next = branch_column(self@.take(i + 1));
            assert(next.drop_last() =~= column);
            assert(next.last() == self.routes[i as int].branch@);
            push_distinct(&mut names, &self.routes[i].branch);
            i += 1;
        }
        assert(self@.take(i as int) =~= self@);
        names
    }

    /// The architectures of `branch`, each once, in the order in which they
    /// were found.
    pub fn architectures(&self, branch: &String) -> (names: Vec<String>)
        ensures
            texts(names@) == distinct(arch_column(self@, branch@)),
    {
        let mut names: Vec<String> = Vec::new();
        let mut i: usize = 0;
        assert(texts(names@) =~= distinct(arch_column(self@.take(0), branch@)));
        while i < self.routes.len()
            invariant
                i <= self.routes.len(),
                texts(names@) == distinct(arch_column(self@.take(i as int), branch@)),
            decreases self.routes.len() - i,
        {
            assert(self@.take(i + 1).drop_last() =~= self@.take(i as int));
            assert(self@.take(i + 1).last() == self.routes[i as int]@);
            if self.routes[i].branch == *branch {
                let ghost column = arch_column(self@.take(i as int), branch@);
                assert(column.push(self.routes[i as int].arch@).drop_last() =~= column);
                push_distinct(&mut names, &self.routes[i].arch);
            }
            i += 1;
        }
        assert(self@.take(i as int) =~= self@);
        names
    }

    /// The versions of `branch` and `arch`, each once, in the order in which
    /// they were found.
    pub fn versions(&self, branch: &String, arch: &String) -> (names: Vec<String>)
        ensures
            texts(names@) == distinct(version_column(self@, branch@, arch@)),
    {
        let mut names: Vec<String> = Vec::new();
        let mut i: usize = 0;
        assert(texts(names@) =~= distinct(version_column(self@.take(0), branch@, arch@)));
        while i < self.routes.len()
            invariant
                i <= self.routes.len(),
                texts(names@) == distinct(version_column(self@.take(i as int), branch@, arch@)),
            decreases self.routes.len() - i,
        {
            assert(self@.take(i + 1).drop_last() =~= self@.take(i as int));
            assert(self@.take(i + 1).last() == self.routes[i as int]@);
            if self.routes[i].is_under(branch, arch) {
                let ghost column = version_column(self@.take(i as int), branch@, arch@);
                assert(column.push(self.routes[i as int].version@).drop_last() =~= column);
                push_distinct(&mut names, &self.routes[i].version);
            }
            i += 1;
        }
        assert(self@.take(i as int) =~= self@);
        names
    }

    /// The route of `branch` and `arch` with the greatest version.
    pub fn latest(&self, branch: &String, arch: &String) -> (found: Option<Route>)
        ensures
            found is Some == latest_of(self@, branch@, arch@) is Some,
            found matches Some(r) ==> r.wf() && Some(r@) == latest_of(self@, branch@, arch@),
    {
        proof {
            use_type_invariant(self);
        }
        let mut best: Option<usize> = None;
        let mut i: usize = 0;
        while i < self.routes.len()
            invariant
                i <= self.routes.len(),
                best is Some == latest_of(self@.take(i as int), branch@, arch@) is Some,
                best matches Some(k) ==> k < i && Some(self@[k as int]) == latest_of(
                    self@.take(i as int),
                    branch@,
                    arch@,
                ),
            decreases self.routes.len() - i,
        {
            assert(self@.take(i + 1).drop_last() =~= self@.take(i as int));
            assert(self@.take(i + 1).last() == self.routes[i as int]@);
            if self.routes[i].is_under(branch, arch) {
                match best {
                    None => {
                        best = Some(i);
                    },
                    Some(k) => {
                        let order = self.routes[k].version_order(&self.routes[i]);
                        if candidate_wins(order) {
                            best = Some(i);
                        }
                    },
                }
            }
            i += 1;
        }
        assert(self@.take(i as int) =~= self@);
        match best {
            None => None,
            Some(k) => {
                let route = self.routes[k].clone();
                Some(route)
            },
        }
    }

    /// Looks a route up by identity. The version `current` stands for the
    /// latest version of the branch and architecture.
    pub fn lookup(&self, branch: &String, arch: &String, version: &String) -> (found: Option<Route>)
        ensures
            found is Some == lookup_of(
                self@,
                RouteId { branch: branch@, arch: arch@, version: version@ },
            ) is Some,
            found matches Some(r) ==> r.wf() && Some(r@) == lookup_of(
                self@,
                RouteId { branch: branch@, arch: arch@, version: version@ },
            ),
    {
        proof {
            use_type_invariant(self);
        }
        let current = "current".to_owned();
        if *version == current {
            return self.latest(branch, arch);
        }
        let ghost id = RouteId { branch: branch@, arch: arch@, version: version@ };
        let mut i: usize = 0;
        while i < self.routes.len()
            invariant
                i <= self.routes.len(),
                forall|k: int| 0 <= k < self.routes.len() ==> (#[trigger] self.routes[k]).wf(),
                version@ != current_name(),
                id == (RouteId { branch: branch@, arch: arch@, version: version@ }),
                forall|k: int| 0 <= k < i ==> self@[k] != id,
            decreases self.routes.len() - i,
        {
            if self.routes[i].is(branch, arch, version) {
                assert(self@[i as int] == id);
                let route = self.routes[i].clone();
                return Some(route);
            }
            i += 1;
        }
        None
    }
}

} // verus!
