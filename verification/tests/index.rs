use hpkgbouncer::config::Readiness;
use hpkgbouncer::index::RouteIndex;
use hpkgbouncer::route::Route;

fn route(branch: &str, arch: &str, version: &str) -> Route {
    Route::new(branch.to_string(), arch.to_string(), version.to_string())
}

fn s(text: &str) -> String {
    text.to_string()
}

fn strings(keys: &[&str]) -> Vec<String> {
    keys.iter().map(|k| k.to_string()).collect()
}

fn sample() -> RouteIndex {
    let mut index = RouteIndex::new();
    for (b, a, v) in [
        ("master", "x86_64", "hrev56000"),
        ("r1beta4", "x86_64", "hrev56578_1"),
        ("master", "x86_gcc2", "hrev56000"),
        ("master", "x86_64", "hrev57000"),
        ("master", "x86_64", "hrev9000"),
        ("r1beta4", "x86_gcc2", "hrev56578_1"),
    ] {
        assert!(index.insert(route(b, a, v)));
    }
    index
}

#[test]
fn new_index_is_empty() {
    let index = RouteIndex::new();
    assert_eq!(index.len(), 0);
    assert!(index.branches().is_empty());
    assert!(index.latest(&s("master"), &s("x86_64")).is_none());
}

#[test]
fn inserting_twice_gives_one_entry() {
    let mut index = RouteIndex::new();
    assert!(index.insert(route("master", "x86_64", "hrev57000")));
    assert!(!index.insert(route("master", "x86_64", "hrev57000")));
    assert_eq!(index.len(), 1);
    assert_eq!(index.versions(&s("master"), &s("x86_64")), vec!["hrev57000"]);
    assert!(index.contains(&s("master"), &s("x86_64"), &s("hrev57000")));
}

#[test]
fn insert_keeps_routes_that_differ_in_one_field() {
    let mut index = RouteIndex::new();
    assert!(index.insert(route("master", "x86_64", "hrev1")));
    assert!(index.insert(route("master", "x86_64", "hrev2")));
    assert!(index.insert(route("master", "arm64", "hrev1")));
    assert!(index.insert(route("r1", "x86_64", "hrev1")));
    assert_eq!(index.len(), 4);
    assert!(!index.contains(&s("r1"), &s("arm64"), &s("hrev1")));
}

#[test]
fn branches_come_once_in_discovery_order() {
    assert_eq!(sample().branches(), vec!["master", "r1beta4"]);
}

#[test]
fn architectures_come_once_in_discovery_order() {
    let index = sample();
    assert_eq!(index.architectures(&s("master")), vec!["x86_64", "x86_gcc2"]);
    assert_eq!(index.architectures(&s("r1beta4")), vec!["x86_64", "x86_gcc2"]);
    assert!(index.architectures(&s("nope")).is_empty());
}

#[test]
fn versions_come_in_discovery_order_unsorted() {
    let index = sample();
    assert_eq!(index.versions(&s("master"), &s("x86_64")), vec!["hrev56000", "hrev57000", "hrev9000"]);
    assert_eq!(index.versions(&s("master"), &s("x86_gcc2")), vec!["hrev56000"]);
    assert!(index.versions(&s("master"), &s("arm64")).is_empty());
    assert!(index.versions(&s("x86_64"), &s("master")).is_empty());
}

#[test]
fn latest_is_the_greatest_in_natural_order() {
    let index = sample();
    let latest = index.latest(&s("master"), &s("x86_64")).unwrap();
    assert_eq!(latest.version, "hrev57000");
    assert_eq!(latest.path, "master/x86_64/hrev57000");
    let other = index.latest(&s("master"), &s("x86_gcc2")).unwrap();
    assert_eq!(other.version, "hrev56000");
    assert!(index.latest(&s("master"), &s("arm64")).is_none());
}

#[test]
fn latest_does_not_depend_on_discovery_order() {
    let mut index = RouteIndex::new();
    index.insert(route("master", "x86_64", "hrev57000"));
    index.insert(route("master", "x86_64", "hrev9000"));
    index.insert(route("master", "x86_64", "hrev56000"));
    assert_eq!(index.latest(&s("master"), &s("x86_64")).unwrap().version, "hrev57000");
}

#[test]
fn latest_of_equal_versions_is_the_last_found() {
    let mut index = RouteIndex::new();
    index.insert(route("master", "x86_64", "hrev 1"));
    index.insert(route("master", "x86_64", "hrev1"));
    assert_eq!(index.latest(&s("master"), &s("x86_64")).unwrap().version, "hrev1");
}

#[test]
fn lookup_finds_the_exact_route() {
    let index = sample();
    let found = index.lookup(&s("master"), &s("x86_64"), &s("hrev9000")).unwrap();
    assert_eq!(found.branch, "master");
    assert_eq!(found.arch, "x86_64");
    assert_eq!(found.version, "hrev9000");
    assert_eq!(found.path, "master/x86_64/hrev9000");
}

#[test]
fn lookup_of_current_is_the_latest() {
    let index = sample();
    assert_eq!(index.lookup(&s("master"), &s("x86_64"), &s("current")).unwrap().version, "hrev57000");
    assert!(index.lookup(&s("master"), &s("arm64"), &s("current")).is_none());
}

#[test]
fn lookup_of_unknown_route_finds_nothing() {
    let index = sample();
    assert!(index.lookup(&s("nope"), &s("x86_64"), &s("hrev57000")).is_none());
    assert!(index.lookup(&s("master"), &s("nope"), &s("hrev57000")).is_none());
    assert!(index.lookup(&s("master"), &s("x86_64"), &s("hrev1")).is_none());
    assert!(index.lookup(&s(""), &s(""), &s("")).is_none());
}

#[test]
fn from_keys_reads_each_route_once() {
    let keys = strings(&[
        "master/x86_64/hrev57000/repo",
        "master/x86_64/hrev57000/repo.sha256",
        "master/x86_64/hrev57000/packages/a.hpkg",
        "master/x86_64",
        "master/x86_64/hrev56000/repo",
        "stray",
    ]);
    let index = RouteIndex::from_keys(&keys, "", Readiness::Listed);
    assert_eq!(index.len(), 2);
    assert_eq!(index.versions(&s("master"), &s("x86_64")), vec!["hrev57000", "hrev56000"]);
}

#[test]
fn from_keys_with_marker_wants_the_marker_object() {
    let keys = strings(&[
        "hpkg/master/x86_64/hrev1/repo.sha256",
        "hpkg/master/x86_64/hrev2/repo",
        "hpkg/master/x86_64/hrev3",
    ]);
    let index = RouteIndex::from_keys(&keys, "hpkg/", Readiness::Marker);
    assert_eq!(index.versions(&s("master"), &s("x86_64")), vec!["hrev2"]);
    let all = RouteIndex::from_keys(&keys, "hpkg/", Readiness::Listed);
    assert_eq!(all.versions(&s("master"), &s("x86_64")), vec!["hrev1", "hrev2", "hrev3"]);
}

#[test]
fn from_keys_with_companions_wants_both_objects() {
    let keys = strings(&[
        "master/x86_64/hrev1/repo",
        "master/x86_64/hrev2/repo",
        "master/x86_64/hrev2/repo.sha256",
        "master/x86_64/hrev3/repo.sha256",
    ]);
    let index = RouteIndex::from_keys(&keys, "", Readiness::Companions);
    assert_eq!(index.len(), 1);
    assert_eq!(index.versions(&s("master"), &s("x86_64")), vec!["hrev2"]);
}

#[test]
fn from_keys_of_nothing_is_empty() {
    let index = RouteIndex::from_keys(&Vec::new(), "hpkg/", Readiness::Listed);
    assert_eq!(index.len(), 0);
}

#[test]
fn get_gives_the_routes_in_discovery_order() {
    let index = sample();
    assert_eq!(index.get(0).version, "hrev56000");
    assert_eq!(index.get(1).branch, "r1beta4");
    assert_eq!(index.get(5).path, "r1beta4/x86_gcc2/hrev56578_1");
    let copy = index.clone();
    assert_eq!(copy.len(), index.len());
    assert_eq!(copy.get(3).version, "hrev57000");
}

#[test]
fn inserted_route_is_kept_under_its_derived_path() {
    let mut index = RouteIndex::new();
    let mut odd = route("master", "x86_64", "hrev1");
    odd.path = "elsewhere".to_string();
    assert!(index.insert(odd));
    assert_eq!(index.get(0).path, "master/x86_64/hrev1");
    assert_eq!(index.lookup(&s("master"), &s("x86_64"), &s("hrev1")).unwrap().path, "master/x86_64/hrev1");
}
