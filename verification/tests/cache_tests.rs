use hook_advisor::cache::PatternCache;
use hook_advisor::config::ConfigError;

#[test]
fn same_pattern_compiles_once() {
    let mut cache = PatternCache::new();
    assert_eq!(cache.compilations(), 0);
    let m1 = cache.get_or_compile("npm").unwrap();
    assert_eq!(cache.compilations(), 1);
    let m2 = cache.get_or_compile("npm").unwrap();
    assert_eq!(cache.compilations(), 1);

    // The two matchers behave identically.
    for subject in ["npm install", "my-npm-tool", "npmx", "", "npm"] {
        assert_eq!(m1.is_match(subject), m2.is_match(subject));
        assert_eq!(m1.replace_all(subject, "bun"), m2.replace_all(subject, "bun"));
    }
}

#[test]
fn distinct_patterns_each_compile() {
    let mut cache = PatternCache::new();
    cache.get_or_compile("npm").unwrap();
    cache.get_or_compile("yarn").unwrap();
    cache.get_or_compile("npm").unwrap();
    assert_eq!(cache.compilations(), 2);
}

#[test]
fn empty_pattern_is_invalid_and_not_cached() {
    let mut cache = PatternCache::new();
    let r = cache.get_or_compile("");
    assert!(matches!(r, Err(ConfigError::PatternInvalid(_))));
    assert_eq!(cache.compilations(), 0);
}
