use httpie_oapi::openapi::api_spec::{FetchAction, FetchEvent};
use httpie_oapi::openapi::endpoint::EndPoint;
use httpie_oapi::openapi::{ApiSpec, EndPoints, Method};
use httpie_oapi::Config;

fn endpoints(paths: &[&str]) -> EndPoints {
    EndPoints::new(
        paths
            .iter()
            .map(|p| EndPoint { method: Method::Get, path: p.to_string(), summary: None, params: vec![] })
            .collect(),
    )
}

fn paths(endpoints: &EndPoints) -> Vec<String> {
    endpoints.all().iter().map(|e| e.path.clone()).collect()
}

fn api(name: &str) -> ApiSpec {
    ApiSpec::new(name.to_string(), format!("https://{}/openapi.json", name), format!("https://{}", name))
}

fn names(config: &Config) -> Vec<String> {
    config.list_apis().iter().map(|a| a.name.clone()).collect()
}

#[test]
fn new_api_knows_no_endpoints() {
    let api = ApiSpec::new(
        "petstore".to_string(),
        "https://x/openapi.json".to_string(),
        "https://api.example.com".to_string(),
    );
    assert_eq!(api.name, "petstore");
    assert_eq!(api.spec_url, "https://x/openapi.json");
    assert_eq!(api.base_url, "https://api.example.com");
    assert!(api.endpoints().is_none());
}

#[test]
fn endpoints_are_first_looked_for_in_the_cache() {
    let mut api = api("a");
    assert!(matches!(api.get_endpoints(FetchEvent::Wanted), FetchAction::LoadCache));
    assert!(api.endpoints().is_none());
}

#[test]
fn unreadable_cache_leads_to_a_refresh() {
    let mut api = api("a");
    assert!(matches!(api.get_endpoints(FetchEvent::CacheUnreadable), FetchAction::Refresh));
    assert!(api.endpoints().is_none());
}

#[test]
fn loaded_cache_is_kept_and_delivered() {
    let mut api = api("a");
    match api.get_endpoints(FetchEvent::CacheLoaded(endpoints(&["/pets"]))) {
        FetchAction::Deliver(delivered) => assert_eq!(paths(&delivered), vec!["/pets"]),
        other => panic!("{:?}", other),
    }
    assert_eq!(paths(api.endpoints().unwrap()), vec!["/pets"]);
}

#[test]
fn refreshed_endpoints_are_kept_and_delivered() {
    let mut api = api("a");
    match api.get_endpoints(FetchEvent::Refreshed(endpoints(&["/a", "/b"]))) {
        FetchAction::Deliver(delivered) => assert_eq!(paths(&delivered), vec!["/a", "/b"]),
        other => panic!("{:?}", other),
    }
    assert_eq!(paths(api.endpoints().unwrap()), vec!["/a", "/b"]);
}

#[test]
fn known_endpoints_are_delivered_whatever_happens() {
    let mut api = api("a");
    api.get_endpoints(FetchEvent::CacheLoaded(endpoints(&["/pets"])));
    for event in [
        FetchEvent::Wanted,
        FetchEvent::CacheUnreadable,
        FetchEvent::CacheLoaded(endpoints(&["/other"])),
        FetchEvent::Refreshed(endpoints(&["/new"])),
    ] {
        match api.get_endpoints(event) {
            FetchAction::Deliver(delivered) => assert_eq!(paths(&delivered), vec!["/pets"]),
            other => panic!("{:?}", other),
        }
        assert_eq!(paths(api.endpoints().unwrap()), vec!["/pets"]);
    }
}

#[test]
fn full_walk_from_wanted_to_delivered() {
    let mut api = api("a");
    let mut event = FetchEvent::Wanted;
    let mut steps = vec![];
    let delivered = loop {
        match api.get_endpoints(event) {
            FetchAction::Deliver(delivered) => break delivered,
            FetchAction::LoadCache => {
                steps.push("load");
                event = FetchEvent::CacheUnreadable;
            }
            FetchAction::Refresh => {
                steps.push("refresh");
                event = FetchEvent::Refreshed(endpoints(&["/fresh"]));
            }
        }
    };
    assert_eq!(steps, vec!["load", "refresh"]);
    assert_eq!(paths(&delivered), vec!["/fresh"]);
}

#[test]
fn empty_registry() {
    let config = Config::new();
    assert!(config.list_apis().is_empty());
    assert!(config.get_api("petstore").is_none());
}

#[test]
fn added_apis_are_listed_in_order() {
    let mut config = Config::new();
    config.add_api("b".to_string(), "https://b/spec".to_string(), "https://b".to_string());
    config.add_api("a".to_string(), "https://a/spec".to_string(), "https://a".to_string());
    config.add_api("c".to_string(), "https://c/spec".to_string(), "https://c".to_string());
    assert_eq!(names(&config), vec!["b", "a", "c"]);
    let a = config.get_api("a").unwrap();
    assert_eq!(a.spec_url, "https://a/spec");
    assert_eq!(a.base_url, "https://a");
    assert!(a.endpoints().is_none());
    assert!(config.get_api("d").is_none());
    assert!(config.get_api("").is_none());
}

#[test]
fn adding_a_name_again_replaces_the_api_where_it_stands() {
    let mut config = Config::new();
    config.add_api("a".to_string(), "https://a/1".to_string(), "https://a".to_string());
    config.add_api("b".to_string(), "https://b/1".to_string(), "https://b".to_string());
    config.get_endpoints("a", FetchEvent::Refreshed(endpoints(&["/x"])));
    assert!(config.get_api("a").unwrap().endpoints().is_some());
    config.add_api("a".to_string(), "https://a/2".to_string(), "https://a2".to_string());
    assert_eq!(names(&config), vec!["a", "b"]);
    let a = config.get_api("a").unwrap();
    assert_eq!(a.spec_url, "https://a/2");
    assert_eq!(a.base_url, "https://a2");
    assert!(a.endpoints().is_none());
}

#[test]
fn removing_an_api() {
    let mut config = Config::new();
    config.add_api("a".to_string(), "https://a/1".to_string(), "https://a".to_string());
    config.add_api("b".to_string(), "https://b/1".to_string(), "https://b".to_string());
    config.add_api("c".to_string(), "https://c/1".to_string(), "https://c".to_string());
    assert!(!config.remove_api("d"));
    assert_eq!(names(&config), vec!["a", "b", "c"]);
    assert!(config.remove_api("b"));
    assert_eq!(names(&config), vec!["a", "c"]);
    assert!(!config.remove_api("b"));
    assert!(config.get_api("b").is_none());
    assert!(config.remove_api("a"));
    assert!(config.remove_api("c"));
    assert!(config.list_apis().is_empty());
}

#[test]
fn endpoints_of_a_registered_api_step_by_step() {
    let mut config = Config::new();
    config.add_api("a".to_string(), "https://a/1".to_string(), "https://a".to_string());
    config.add_api("b".to_string(), "https://b/1".to_string(), "https://b".to_string());
    assert!(config.get_endpoints("zzz", FetchEvent::Wanted).is_none());
    assert!(matches!(config.get_endpoints("b", FetchEvent::Wanted), Some(FetchAction::LoadCache)));
    assert!(matches!(config.get_endpoints("b", FetchEvent::CacheUnreadable), Some(FetchAction::Refresh)));
    match config.get_endpoints("b", FetchEvent::Refreshed(endpoints(&["/pets"]))) {
        Some(FetchAction::Deliver(delivered)) => assert_eq!(paths(&delivered), vec!["/pets"]),
        other => panic!("{:?}", other),
    }
    assert_eq!(names(&config), vec!["a", "b"]);
    assert!(config.get_api("a").unwrap().endpoints().is_none());
    assert_eq!(paths(config.get_api("b").unwrap().endpoints().unwrap()), vec!["/pets"]);
    match config.get_endpoints("b", FetchEvent::Wanted) {
        Some(FetchAction::Deliver(delivered)) => assert_eq!(paths(&delivered), vec!["/pets"]),
        other => panic!("{:?}", other),
    }
}

#[test]
fn file_paths() {
    assert_eq!(Config::config_file("/home/u"), "/home/u/.config/httpie-oapi/config.toml");
    assert_eq!(Config::get_cache_path("/home/u", "petstore"), "/home/u/.cache/httpie-oapi/petstore.json");
    assert_eq!(
        Config::get_endpoints_cache_path("/home/u", "petstore"),
        "/home/u/.cache/httpie-oapi/petstore.endpoints.json"
    );
    assert_eq!(httpie_oapi::config::CONFIG_DIR, ".config/httpie-oapi");
    assert_eq!(httpie_oapi::config::CACHE_DIR, ".cache/httpie-oapi");
    assert_eq!(httpie_oapi::config::CONFIG_FILE, "config.toml");
}

#[test]
fn request_url_is_the_parsed_location() {
    let good = ApiSpec::new(
        "a".to_string(),
        "https://example.com/v1/../openapi.json".to_string(),
        "https://example.com".to_string(),
    );
    let url = good.request_url().unwrap();
    assert_eq!(url.as_str(), "https://example.com/openapi.json");
    assert_eq!(url.host_str(), Some("example.com"));

    for location in ["", "openapi.json", "/etc/openapi.json", "https://", "http://[::1"] {
        let bad = ApiSpec::new("a".to_string(), location.to_string(), "https://example.com".to_string());
        assert!(bad.request_url().is_err(), "for {:?}", location);
    }
}

#[test]
fn removed_name_is_gone() {
    let mut config = Config::new();
    config.add_api("a".to_string(), "https://a/1".to_string(), "https://a".to_string());
    config.add_api("b".to_string(), "https://b/1".to_string(), "https://b".to_string());
    config.add_api("a".to_string(), "https://a/2".to_string(), "https://a".to_string());
    assert!(config.remove_api("a"));
    assert!(config.get_api("a").is_none());
    assert_eq!(names(&config), vec!["b"]);
}
