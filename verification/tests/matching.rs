use http_router::matcher::{NoMatch, PathMatch, PathMatcher};
use http_router::method::Method;
use http_router::params::Params;
use http_router::path::{is_plain, is_valid_pattern};
use http_router::router::{resolve, Resolution};

fn pairs(list: &[(&str, &str)]) -> Params {
    Params::from_pairs(list.iter().map(|(k, v)| (k.to_string(), v.to_string())).collect())
}

#[test]
fn empty_matcher_matches_nothing() {
    let matcher = PathMatcher::new();
    assert!(matches!(matcher.recognize("/"), Err(NoMatch)));
    assert!(matches!(matcher.recognize(""), Err(NoMatch)));
    assert!(matches!(matcher.recognize("/a/b"), Err(NoMatch)));
}

#[test]
fn matcher_returns_the_bound_number() {
    let mut matcher = PathMatcher::new();
    matcher.add("/thomas", 10);
    matcher.add("/tom", 20);
    matcher.add("/wycats", 30);
    let hit = matcher.recognize("/thomas").ok().expect("a match");
    assert_eq!(hit.handler, 10);
    assert!(hit.params.is_empty());
    assert_eq!(matcher.recognize("/tom").ok().expect("a match").handler, 20);
    assert_eq!(matcher.recognize("/wycats").ok().expect("a match").handler, 30);
    assert!(matcher.recognize("/yehuda").is_err());
    assert!(matcher.recognize("/thom").is_err());
}

#[test]
fn matcher_binds_parameters() {
    let mut matcher = PathMatcher::new();
    matcher.add("/posts/new", 1);
    matcher.add("/posts/:id", 2);
    let id = matcher.recognize("/posts/1").ok().expect("a match");
    assert_eq!(id.handler, 2);
    assert_eq!(id.params.len(), 1);
    assert_eq!(id.params.find("id"), Some("1"));
    let new = matcher.recognize("/posts/new").ok().expect("a match");
    assert_eq!(new.handler, 1);
    assert_eq!(new.params.len(), 0);
}

#[test]
fn matcher_root_and_empty_path() {
    let mut matcher = PathMatcher::new();
    matcher.add("/", 12);
    assert_eq!(matcher.recognize("/").ok().expect("a match").handler, 12);
    assert_eq!(matcher.recognize("").ok().expect("a match").handler, 12);
}

#[test]
fn matcher_wildcard() {
    let mut matcher = PathMatcher::new();
    matcher.add("/static/*file", 5);
    let hit = matcher.recognize("/static/css/site.css").ok().expect("a match");
    assert_eq!(hit.handler, 5);
    assert_eq!(hit.params.find("file"), Some("css/site.css"));
}

#[test]
fn plain_paths() {
    assert!(is_plain(""));
    assert!(is_plain("/"));
    assert!(is_plain("/users/:id"));
    assert!(is_plain("/a%20b?x=1"));
    assert!(is_plain("\u{1}\u{7f}"));
    assert!(!is_plain("/caf\u{e9}"));
    assert!(!is_plain("/a\0b"));
    assert!(!is_plain("\0"));
    assert!(!is_plain("/\u{80}"));
}

#[test]
fn valid_patterns() {
    assert!(is_valid_pattern(""));
    assert!(is_valid_pattern("/users/:id"));
    assert!(is_valid_pattern("/files/*rest"));
    assert!(!is_valid_pattern("/caf\u{e9}"));
    assert!(!is_valid_pattern("/a\0"));
}

#[test]
fn params_find() {
    let params = pairs(&[("id", "42"), ("name", "ada")]);
    assert_eq!(params.len(), 2);
    assert!(!params.is_empty());
    assert_eq!(params.find("id"), Some("42"));
    assert_eq!(params.find("name"), Some("ada"));
    assert_eq!(params.find("age"), None);
    assert_eq!(params.find(""), None);
}

#[test]
fn params_find_takes_the_first_binding() {
    let params = pairs(&[("k", "first"), ("k", "second")]);
    assert_eq!(params.find("k"), Some("first"));
}

#[test]
fn params_empty() {
    let params = Params::new();
    assert_eq!(params.len(), 0);
    assert!(params.is_empty());
    assert_eq!(params.find("id"), None);
}

#[test]
fn resolve_serves_a_match() {
    for method in [Method::Get, Method::Head, Method::Options] {
        let found = Ok(PathMatch { handler: 3, params: pairs(&[("id", "7")]) });
        match resolve(method, found) {
            Resolution::Found(hit) => {
                assert_eq!(hit.handler, 3);
                assert_eq!(hit.params.find("id"), Some("7"));
            }
            _ => panic!("the match was dropped"),
        }
    }
}

#[test]
fn resolve_retries_head_as_get() {
    assert!(matches!(resolve(Method::Head, Err(NoMatch)), Resolution::RetryAsGet));
}

#[test]
fn resolve_gives_up_on_other_methods() {
    for method in [
        Method::Get,
        Method::Post,
        Method::Put,
        Method::Delete,
        Method::Patch,
        Method::Trace,
        Method::Connect,
        Method::Options,
    ] {
        assert!(matches!(resolve(method, Err(NoMatch)), Resolution::NotFound));
    }
}

#[test]
fn params_into_pairs_keeps_the_order() {
    let params = pairs(&[("b", "2"), ("a", "1")]);
    assert_eq!(
        params.into_pairs(),
        vec![("b".to_string(), "2".to_string()), ("a".to_string(), "1".to_string())]
    );
    assert_eq!(Params::new().into_pairs(), vec![]);
}

#[test]
fn matcher_hands_bindings_out_by_name() {
    let mut matcher = PathMatcher::new();
    matcher.add("/:zone/:area", 1);
    let hit = matcher.recognize("/north/7").ok().expect("a match");
    assert_eq!(
        hit.params.into_pairs(),
        vec![("area".to_string(), "7".to_string()), ("zone".to_string(), "north".to_string())]
    );
}
