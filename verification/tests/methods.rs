use http_router::defaults::{default_for, DefaultKind};
use http_router::endpoint::{not_found_endpoint, METHOD_NOT_ALLOWED, NOT_FOUND, NO_CONTENT};
use http_router::method::{allow_header, join_strings, Method, MethodSet, METHOD_COUNT};

const ALL: [Method; 9] = [
    Method::Get,
    Method::Post,
    Method::Put,
    Method::Delete,
    Method::Head,
    Method::Patch,
    Method::Trace,
    Method::Connect,
    Method::Options,
];

fn set_of(methods: &[Method]) -> MethodSet {
    let mut set = MethodSet::new();
    for method in methods {
        set.insert(*method);
    }
    set
}

#[test]
fn methods_are_numbered_in_order() {
    assert_eq!(METHOD_COUNT, 9);
    for (i, method) in ALL.iter().enumerate() {
        assert_eq!(method.index(), i);
        assert_eq!(Method::from_index(i), *method);
    }
}

#[test]
fn method_tokens() {
    let tokens = ["GET", "POST", "PUT", "DELETE", "HEAD", "PATCH", "TRACE", "CONNECT", "OPTIONS"];
    for (method, token) in ALL.iter().zip(tokens) {
        assert_eq!(method.to_name(), token);
    }
}

#[test]
fn method_set_starts_empty() {
    let set = MethodSet::new();
    for method in ALL {
        assert!(!set.contains(method));
    }
}

#[test]
fn method_set_insert() {
    let mut set = MethodSet::new();
    set.insert(Method::Patch);
    set.insert(Method::Get);
    set.insert(Method::Patch);
    for method in ALL {
        assert_eq!(set.contains(method), method == Method::Patch || method == Method::Get);
    }
}

#[test]
fn allow_header_of_nothing_is_empty() {
    assert_eq!(allow_header(&MethodSet::new()), "");
}

#[test]
fn allow_header_of_one_method() {
    assert_eq!(allow_header(&set_of(&[Method::Post])), "POST");
}

#[test]
fn allow_header_is_in_declaration_order() {
    assert_eq!(allow_header(&set_of(&[Method::Post, Method::Get])), "GET, POST");
    assert_eq!(
        allow_header(&set_of(&[Method::Options, Method::Delete, Method::Head])),
        "DELETE, HEAD, OPTIONS"
    );
}

#[test]
fn allow_header_of_every_method() {
    assert_eq!(
        allow_header(&set_of(&ALL)),
        "GET, POST, PUT, DELETE, HEAD, PATCH, TRACE, CONNECT, OPTIONS"
    );
}

#[test]
fn join_strings_cases() {
    assert_eq!(join_strings(&vec![], ", "), "");
    assert_eq!(join_strings(&vec!["a".to_string()], ", "), "a");
    assert_eq!(join_strings(&vec!["a".to_string(), "b".to_string()], ", "), "a, b");
    assert_eq!(
        join_strings(&vec!["a".to_string(), "".to_string(), "c".to_string()], "/"),
        "a//c"
    );
    assert_eq!(join_strings(&vec!["x".to_string(), "y".to_string()], ""), "xy");
}

#[test]
fn default_for_a_handled_method_is_none() {
    let supported = set_of(&[Method::Get, Method::Post]);
    assert_eq!(default_for(Method::Get, &supported), None);
    assert_eq!(default_for(Method::Post, &supported), None);
}

#[test]
fn default_for_head_is_none() {
    assert_eq!(default_for(Method::Head, &set_of(&[Method::Get])), None);
    assert_eq!(default_for(Method::Head, &MethodSet::new()), None);
    assert_eq!(default_for(Method::Head, &set_of(&[Method::Head])), None);
}

#[test]
fn default_for_options() {
    let supported = set_of(&[Method::Get, Method::Post]);
    assert_eq!(default_for(Method::Options, &supported), Some(DefaultKind::Options));
    assert_eq!(default_for(Method::Options, &set_of(&[Method::Options])), None);
}

#[test]
fn default_for_other_methods() {
    let supported = set_of(&[Method::Get, Method::Post]);
    for method in [Method::Put, Method::Delete, Method::Patch, Method::Trace, Method::Connect] {
        assert_eq!(default_for(method, &supported), Some(DefaultKind::MethodNotAllowed));
    }
}

#[test]
fn default_statuses() {
    assert_eq!(DefaultKind::Options.status(), 204);
    assert_eq!(DefaultKind::MethodNotAllowed.status(), 405);
    assert_eq!(NO_CONTENT, 204);
    assert_eq!(METHOD_NOT_ALLOWED, 405);
    assert_eq!(NOT_FOUND, 404);
}

#[test]
fn not_found_endpoint_is_a_bare_404() {
    let response = not_found_endpoint();
    assert_eq!(response.status, 404);
    assert_eq!(response.allow, None);
}
