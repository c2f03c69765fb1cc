use prune::platform::KnownPaths;
use prune::providers::browser::{
    cache_candidates, cache_dir_names, chromium_browsers, firefox_candidate, firefox_root, is_profile_dir,
    is_profile_name, profile_roots, sorted_paths,
};

/// What a real Chrome profile holds besides its caches. None of it may ever be reported.
const MUST_SURVIVE: &[&str] = &[
    "Cookies",
    "Login Data",
    "Web Data",
    "History",
    "Bookmarks",
    "Local Storage",
    "Session Storage",
    "IndexedDB",
    "Service Worker",
    "Extensions",
    "Local Extension Settings",
    "Preferences",
    "Affiliation Database",
    "ClientCertificates",
    "Accounts",
];

fn known_for(dir: &str) -> KnownPaths {
    KnownPaths {
        home: dir.to_string(),
        user_cache: Some(format!("{dir}/Library/Caches")),
        user_logs: None,
        app_support: Some(format!("{dir}/Library/Application Support")),
        local_app_data: Some(format!("{dir}/AppData/Local")),
        temp: format!("{dir}/tmp"),
        trash: None,
        downloads: None,
        project_roots: vec![],
    }
}

#[test]
fn only_caches_are_reported_out_of_a_profile() {
    let known = known_for("/u");
    let chrome = &chromium_browsers()[0];
    let profile = format!("{}/Default", profile_roots(chrome, &known, false)[0]);
    let reported: Vec<String> = cache_candidates(chrome.name, &profile)
        .into_iter()
        .map(|(_, p)| p.rsplit('/').next().unwrap().to_string())
        .collect();

    assert!(!reported.is_empty(), "the caches should be found");
    for name in MUST_SURVIVE {
        assert!(!reported.iter().any(|r| r == name), "{name} is not a cache and must never be reported");
    }
    let caches = cache_dir_names();
    for name in reported {
        assert!(caches.contains(&name.as_str()), "{name} is outside the cache list");
    }
}

#[test]
fn each_platform_looks_where_that_platform_keeps_profiles() {
    let known = known_for("/u");
    let chrome = &chromium_browsers()[0];

    // Windows keeps both the caches and the profile data under one `User Data` directory.
    let windows = profile_roots(chrome, &known, true);
    assert_eq!(windows.len(), 1);
    assert!(windows[0].ends_with("Google\\Chrome\\User Data"), "{windows:?}");
    assert!(windows[0].starts_with(known.local_app_data.as_ref().unwrap()));

    // macOS splits them: the HTTP cache under Caches, the rest under Application Support.
    let mac = profile_roots(chrome, &known, false);
    assert_eq!(mac.len(), 2);
    assert!(mac[0].starts_with(known.user_cache.as_ref().unwrap()));
    assert!(mac[1].starts_with(known.app_support.as_ref().unwrap()));
}

#[test]
fn a_profile_is_recognised_by_its_name() {
    for name in ["Default", "Profile 1", "Profile 27", "Guest Profile"] {
        assert!(is_profile_name(name), "{name}");
    }
    for name in ["Crashpad", "ShaderCache", "Safe Browsing", "System Profile", "Profile"] {
        assert!(!is_profile_name(name), "{name}");
    }
    assert!(is_profile_dir("/r/Default", true));
    assert!(!is_profile_dir("/r/Default", false));
}

#[test]
fn cache_labels_name_the_browser_profile_and_cache() {
    let c = cache_candidates("Brave", "/r/Profile 2");
    assert_eq!(c[0].0, "Brave · Profile 2 · Cache");
    assert_eq!(c[0].1, "/r/Profile 2/Cache");
    assert_eq!(c.len(), 6);
}

#[test]
fn firefox_takes_the_cache_of_each_profile() {
    let known = known_for("/u");
    assert_eq!(firefox_root(&known, false).unwrap(), "/u/Library/Caches/Firefox/Profiles");
    assert!(firefox_root(&known, true).unwrap().ends_with("Mozilla\\Firefox\\Profiles"));
    let (label, path) = firefox_candidate("/u/p/abc.default-release");
    assert_eq!(label, "Firefox · abc.default-release");
    assert!(path.ends_with("cache2"));
}

#[test]
fn profiles_are_listed_in_name_order() {
    let paths = vec!["/r/Profile 2".to_string(), "/r/Default".to_string(), "/r/Guest Profile".to_string()];
    assert_eq!(sorted_paths(&paths), vec!["/r/Default", "/r/Guest Profile", "/r/Profile 2"]);
}
