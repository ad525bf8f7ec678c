use httpz::servers::{method_allowed, tauri_request_uri};
use httpz::{Endpoint, GenericEndpoint, Method};

#[test]
fn register_hands_out_the_methods() {
    let mut endpoint = GenericEndpoint::new([Method::Get, Method::Post], |x: u8| x + 1);
    let methods = endpoint.endpoint.register();
    assert!(methods[0].is_same(&Method::Get) && methods[1].is_same(&Method::Post));
    assert_eq!((endpoint.endpoint.func())(1), 2);
    let raw = GenericEndpoint::new_raw(vec![Method::Put], ());
    let endpoint = Endpoint::from_endpoint(raw).arced();
    assert_eq!(std::sync::Arc::strong_count(&endpoint), 1);
}

#[test]
fn allowed_methods() {
    let methods = [Method::Get, Method::Extension("PURGE".into())];
    assert!(method_allowed(&methods, &Method::Get));
    assert!(method_allowed(&methods, &Method::Extension("PURGE".into())));
    assert!(!method_allowed(&methods, &Method::Post));
    assert!(!method_allowed(&[], &Method::Get));
}

#[test]
fn tauri_uris_are_rewritten() {
    assert_eq!(tauri_request_uri("rspc://localhost/a%20b", "rspc"), "http://rspc.localhost/a b");
    assert_eq!(tauri_request_uri("rspc://x/y", "rspc"), "http://rspc.localhost/x/y");
    assert_eq!(tauri_request_uri("http://rspc.localhost/q", "rspc"), "http://rspc.localhost/q");
    assert_eq!(tauri_request_uri("rspc://localhost/%zz%e2%82%ac", "rspc"), "http://rspc.localhost/%zz€");
    assert_eq!(tauri_request_uri("rspc://localhost/%ff", "rspc"), "http://rspc.localhost/\u{fffd}");
}
