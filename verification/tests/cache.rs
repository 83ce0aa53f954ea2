use hpkgbouncer::cache::{CacheState, RefreshError, RefreshOutcome, RouteCache, SyncEvent, SyncStep};
use hpkgbouncer::config::{ConfigurationError, Readiness, RouteConfig, Setting};

fn strings(keys: &[&str]) -> Vec<String> {
    keys.iter().map(|k| k.to_string()).collect()
}

fn s(text: &str) -> String {
    text.to_string()
}

fn config() -> RouteConfig {
    let mut config = RouteConfig::new();
    config.s3_endpoint = Some(s("https://s3.example.org"));
    config.s3_bucket = Some(s("haiku-repositories"));
    config.s3_key = Some(s("key"));
    config.s3_secret = Some(s("secret"));
    config
}

fn listing() -> Vec<String> {
    strings(&[
        "master/x86_64/hrev56000/repo",
        "master/x86_64/hrev57000/repo",
        "r1beta4/x86_gcc2/hrev56578_1/repo",
    ])
}

fn is_list(step: &SyncStep, prefix: &str) -> bool {
    match step {
        SyncStep::List(p) => p == prefix,
        _ => false,
    }
}

fn is_done(step: &SyncStep, outcome: RefreshOutcome) -> bool {
    match step {
        SyncStep::Done(o) => *o == outcome,
        _ => false,
    }
}

#[test]
fn new_cache_is_empty() {
    let mut cache = RouteCache::new(config());
    assert!(cache.last_update.is_none());
    assert_eq!(cache.routes.len(), 0);
    assert!(cache.branches().is_empty());
    assert_eq!(cache.state(0), CacheState::Empty);
    assert_eq!(cache.config.cache_ttl, 900);
}

#[test]
fn first_poll_asks_for_a_listing() {
    let mut cache = RouteCache::new(config());
    assert!(is_list(&cache.sync(100, SyncEvent::Poll), ""));
    assert!(cache.last_update.is_none());
    // as long as nothing was listed, each poll asks again
    assert!(is_list(&cache.sync(101, SyncEvent::Poll), ""));
}

#[test]
fn listing_refreshes_the_index() {
    let mut cache = RouteCache::new(config());
    let step = cache.sync(100, SyncEvent::Listed(listing()));
    assert!(is_done(&step, RefreshOutcome::Refreshed(3)));
    assert_eq!(cache.last_update, Some(100));
    assert_eq!(cache.branches(), vec!["master", "r1beta4"]);
    assert_eq!(cache.state(100), CacheState::Fresh);
}

#[test]
fn poll_within_the_ttl_asks_for_no_listing() {
    let mut cache = RouteCache::new(config());
    let mut listings = 0;
    for now in [100, 100, 500, 999] {
        if let SyncStep::List(_) = cache.sync(now, SyncEvent::Poll) {
            listings += 1;
            cache.sync(now, SyncEvent::Listed(listing()));
        }
    }
    assert_eq!(listings, 1);
    assert_eq!(cache.state(999), CacheState::Fresh);
    assert_eq!(cache.state(1000), CacheState::Stale);
    // once the time to live has elapsed a poll asks again
    assert!(is_list(&cache.sync(1000, SyncEvent::Poll), ""));
    cache.sync(1000, SyncEvent::Listed(listing()));
    assert!(is_done(&cache.sync(1899, SyncEvent::Poll), RefreshOutcome::Unchanged));
    assert!(is_list(&cache.sync(1900, SyncEvent::Poll), ""));
}

#[test]
fn clock_that_went_back_counts_as_no_time() {
    let mut cache = RouteCache::new(config());
    cache.sync(100, SyncEvent::Listed(listing()));
    assert!(is_done(&cache.sync(50, SyncEvent::Poll), RefreshOutcome::Unchanged));
}

#[test]
fn ttl_of_zero_is_never_fresh() {
    let mut config = config();
    config.cache_ttl = 0;
    let mut cache = RouteCache::new(config);
    cache.sync(100, SyncEvent::Listed(listing()));
    assert!(is_list(&cache.sync(100, SyncEvent::Poll), ""));
    assert_eq!(cache.state(100), CacheState::Stale);
}

#[test]
fn failed_refresh_keeps_what_was_there() {
    let mut cache = RouteCache::new(config());
    cache.sync(100, SyncEvent::Listed(listing()));
    let branches = cache.branches();
    let versions = cache.versions(s("master"), s("x86_64"));
    let arches = cache.architectures(s("master"));
    for error in [RefreshError::Network, RefreshError::Credentials, RefreshError::Authorization] {
        match cache.sync(2000, SyncEvent::Failed(error)) {
            SyncStep::Failed(e) => assert_eq!(e, error),
            _ => panic!("a failed listing must be reported as failed"),
        }
    }
    assert_eq!(cache.last_update, Some(100));
    assert_eq!(cache.branches(), branches);
    assert_eq!(cache.versions(s("master"), s("x86_64")), versions);
    assert_eq!(cache.architectures(s("master")), arches);
    // the next poll is a new attempt
    assert!(is_list(&cache.sync(2001, SyncEvent::Poll), ""));
}

#[test]
fn failed_first_refresh_leaves_the_cache_empty() {
    let mut cache = RouteCache::new(config());
    cache.sync(1, SyncEvent::Failed(RefreshError::Network));
    assert!(cache.last_update.is_none());
    assert!(cache.lookup_repo(s("master"), s("x86_64"), s("current")).is_none());
    assert_eq!(cache.state(1), CacheState::Empty);
}

#[test]
fn refresh_replaces_the_index() {
    let mut cache = RouteCache::new(config());
    cache.sync(100, SyncEvent::Listed(listing()));
    let step = cache.sync(2000, SyncEvent::Listed(strings(&["dev/arm64/hrev1/repo"])));
    assert!(is_done(&step, RefreshOutcome::Refreshed(1)));
    assert_eq!(cache.branches(), vec!["dev"]);
    assert_eq!(cache.last_update, Some(2000));
}

#[test]
fn listing_prefix_ends_in_one_slash() {
    let mut config = config();
    config.s3_prefix = Some(s("hpkg//"));
    let mut cache = RouteCache::new(config);
    assert_eq!(cache.base_prefix(), "hpkg/");
    assert!(is_list(&cache.sync(0, SyncEvent::Poll), "hpkg/"));
    cache.config.s3_prefix = Some(s("a/b"));
    assert_eq!(cache.base_prefix(), "a/b/");
    cache.config.s3_prefix = Some(s(""));
    assert_eq!(cache.base_prefix(), "/");
    cache.config.s3_prefix = None;
    assert_eq!(cache.base_prefix(), "");
}

#[test]
fn keys_are_read_without_the_listing_prefix() {
    let mut config = config();
    config.s3_prefix = Some(s("hpkg"));
    let mut cache = RouteCache::new(config);
    cache.sync(5, SyncEvent::Listed(strings(&["hpkg/master/x86_64/hrev57000/repo"])));
    let found = cache.lookup_repo(s("master"), s("x86_64"), s("hrev57000")).unwrap();
    assert_eq!(found.path, "master/x86_64/hrev57000");
}

#[test]
fn readiness_of_the_configuration_is_applied() {
    let mut config = config();
    config.readiness = Readiness::Marker;
    let mut cache = RouteCache::new(config);
    let step = cache.sync(5, SyncEvent::Listed(strings(&["master/x86_64/hrev1/repo", "master/x86_64/hrev2/other"])));
    assert!(is_done(&step, RefreshOutcome::Refreshed(1)));
}

#[test]
fn current_resolves_to_the_greatest_version() {
    let mut cache = RouteCache::new(config());
    cache.sync(100, SyncEvent::Listed(listing()));
    let found = cache.lookup_repo(s("master"), s("x86_64"), s("current")).unwrap();
    assert_eq!(found.version, "hrev57000");
    assert_eq!(found.branch, "master");
    assert_eq!(found.arch, "x86_64");
    let latest = cache.version_latest(s("master"), s("x86_64")).unwrap();
    assert_eq!(latest.version, "hrev57000");
}

#[test]
fn unknown_lookup_is_not_found() {
    let mut cache = RouteCache::new(config());
    cache.sync(100, SyncEvent::Listed(listing()));
    assert!(cache.lookup_repo(s("nope"), s("x86_64"), s("hrev57000")).is_none());
    assert!(cache.lookup_repo(s("nope"), s("x86_64"), s("current")).is_none());
    assert!(cache.version_latest(s("nope"), s("x86_64")).is_none());
}

#[test]
fn public_prefix_is_the_override_where_set() {
    let mut config = config();
    config.s3_public = Some(s("https://cdn.example.org/haiku/"));
    let mut cache = RouteCache::new(config);
    assert_eq!(cache.public_prefix(), Ok(s("https://cdn.example.org/haiku/")));
}

#[test]
fn public_prefix_is_made_of_endpoint_bucket_and_prefix() {
    let mut cache = RouteCache::new(config());
    assert_eq!(cache.public_prefix(), Ok(s("https://s3.example.org/haiku-repositories/")));
    cache.config.s3_prefix = Some(s("hpkg"));
    assert_eq!(cache.public_prefix(), Ok(s("https://s3.example.org/haiku-repositories/hpkg/")));
    cache.config.s3_prefix = Some(s(""));
    assert_eq!(cache.public_prefix(), Ok(s("https://s3.example.org/haiku-repositories/")));
}

#[test]
fn public_prefix_is_normalised_by_the_parser() {
    let mut config = config();
    config.s3_public = Some(s("HTTPS://CDN.Example.org"));
    let mut cache = RouteCache::new(config);
    assert_eq!(cache.public_prefix(), Ok(s("https://cdn.example.org/")));
}

#[test]
fn public_prefix_needs_endpoint_and_bucket() {
    let mut cache = RouteCache::new(RouteConfig::new());
    assert_eq!(cache.public_prefix(), Err(ConfigurationError::Missing(Setting::Endpoint)));
    cache.config.s3_endpoint = Some(s("https://s3.example.org"));
    assert_eq!(cache.public_prefix(), Err(ConfigurationError::Missing(Setting::Bucket)));
}

#[test]
fn public_prefix_that_is_no_url_is_an_error() {
    let mut config = config();
    config.s3_public = Some(s("not a url"));
    let mut cache = RouteCache::new(config);
    assert_eq!(cache.public_prefix(), Err(ConfigurationError::InvalidUrl));
    cache.config.s3_public = None;
    cache.config.s3_endpoint = Some(s("s3.example.org"));
    assert_eq!(cache.public_prefix(), Err(ConfigurationError::InvalidUrl));
}

#[test]
fn copy_of_a_cache_answers_alike() {
    let mut cache = RouteCache::new(config());
    cache.sync(100, SyncEvent::Listed(listing()));
    let mut copy = cache.clone();
    assert_eq!(copy.last_update, Some(100));
    assert_eq!(copy.branches(), cache.branches());
    assert_eq!(copy.config.s3_bucket, cache.config.s3_bucket);
}
