use minihttp::handler::{
    unsupported_method_body, FuncHelper, Function, Registry, RouteDecision,
};
use minihttp::response::status_response;

fn registry_with(extra: Vec<Function>) -> Registry {
    let mut helper = FuncHelper::new();
    for f in extra {
        helper.add(f);
    }
    helper.get_func_map_raw()
}

#[test]
fn default_verb_set_accepts_all_nine() {
    let reg = registry_with(vec![Function::n("/open", vec![], None, None)]);
    for verb in [
        "GET", "HEAD", "POST", "PUT", "DELETE", "CONNECT", "OPTIONS", "TRACE", "PATCH",
    ] {
        match reg.route("/open", verb) {
            RouteDecision::Allowed(i) => {
                assert_eq!(reg.entries[i].key, "/open");
            }
            _ => panic!("verb {} should be accepted", verb),
        }
    }
}

#[test]
fn explicit_verb_set_accepts_only_listed() {
    let reg = registry_with(vec![]);
    match reg.route("/addfloat", "POST") {
        RouteDecision::Allowed(i) => assert_eq!(reg.entries[i].key, "/addfloat"),
        _ => panic!("POST should be accepted"),
    }
    for verb in ["GET", "HEAD", "PUT", "DELETE", "CONNECT", "OPTIONS", "TRACE", "PATCH"] {
        match reg.route("/addfloat", verb) {
            RouteDecision::MethodNotAllowed(allowed) => {
                assert_eq!(allowed, vec!["POST".to_string()]);
                assert_eq!(
                    unsupported_method_body(&allowed),
                    "Unsupported method. Supported methods: POST"
                );
            }
            _ => panic!("verb {} should be rejected", verb),
        }
    }
}

#[test]
fn rejection_body_joins_all_allowed_verbs() {
    let reg = registry_with(vec![Function::n(
        "/two",
        vec![],
        Some(vec!["GET", "HEAD"]),
        None,
    )]);
    match reg.route("/two", "POST") {
        RouteDecision::MethodNotAllowed(allowed) => {
            assert_eq!(
                unsupported_method_body(&allowed),
                "Unsupported method. Supported methods: GET, HEAD"
            );
        }
        _ => panic!("POST should be rejected"),
    }
}

#[test]
fn unregistered_path_not_found_for_every_method() {
    let reg = registry_with(vec![]);
    for verb in ["GET", "POST", "BREW", ""] {
        assert!(matches!(reg.route("/missing", verb), RouteDecision::NotFound));
    }
    // the reply for this outcome carries no headers and an empty body
    assert_eq!(status_response(404), "HTTP/1.1 404\r\n\r\n");
}

#[test]
fn exact_path_match_only() {
    let reg = registry_with(vec![Function::n("/a", vec![], None, None)]);
    assert!(matches!(reg.route("/a/", "GET"), RouteDecision::NotFound));
    assert!(matches!(reg.route("/A", "GET"), RouteDecision::NotFound));
    assert!(matches!(reg.route("/a", "GET"), RouteDecision::Allowed(_)));
}

#[test]
fn later_registration_replaces_earlier_one() {
    let reg = registry_with(vec![
        Function::n("/dup", vec![], None, Some("first")),
        Function::n("/dup", vec![], None, Some("second")),
    ]);
    let mut hits = 0;
    for e in &reg.entries {
        if e.key == "/dup" {
            hits += 1;
            assert_eq!(e.description.as_deref(), Some("second"));
        }
    }
    assert_eq!(hits, 1);
}

#[test]
fn func_helper_starts_with_addfloat() {
    let helper = FuncHelper::new();
    assert_eq!(helper.store.len(), 1);
    assert_eq!(helper.store[0].key, "/addfloat");
    assert_eq!(helper.store[0].methods, Some(vec!["POST".to_string()]));
    assert_eq!(
        helper.store[0].description.as_deref(),
        Some("Add an entry to the cache.")
    );
}

#[test]
fn pad_extends_short_strings_only() {
    assert_eq!(FuncHelper::pad("ab".to_string(), 5), "ab   ");
    assert_eq!(FuncHelper::pad("abcdef".to_string(), 5), "abcdef");
    assert_eq!(FuncHelper::pad("abcde".to_string(), 5), "abcde");
}

#[test]
fn display_renders_aligned_table() {
    let helper = FuncHelper::new();
    // column widths: key 9 ("/addfloat"), properties 0, description 26
    let expected = format!(
        "Key{} | Properties | Description{} | Methods\n----{} | ----------- | ------------{} | --------\n/addfloat |  | Add an entry to the cache. | POST\n",
        " ".repeat(6),
        " ".repeat(15),
        " ".repeat(5),
        " ".repeat(14),
    );
    let got = helper.display();
    assert_eq!(got, expected);
}

#[test]
fn function_new_keeps_owned_parts() {
    let f = Function::new(
        "/k".to_string(),
        vec!["tagged"],
        Some(vec!["GET".to_string()]),
        Some("desc".to_string()),
    );
    assert_eq!(f.key, "/k");
    assert_eq!(f.properties, vec!["tagged".to_string()]);
    assert_eq!(f.methods, Some(vec!["GET".to_string()]));
    assert_eq!(f.description, Some("desc".to_string()));
}
