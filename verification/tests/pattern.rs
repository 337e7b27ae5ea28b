use rhttp::handler::BoxCloneService;
use rhttp::handler::HandlerTraitWithState;
use rhttp::handler::HandlerTraitWithoutState;
use rhttp::pattern::parse_param_segments;
use rhttp::pattern::RegistrationError;
use rhttp::route::Route;

#[test]
fn test_should_fire_on_path() {
    fn handler() {}

    let r = Route::new("/test", BoxCloneService::new(handler.into_service())).expect("valid route");

    assert!(r.should_fire_on_path("/test"));
    assert!(!r.should_fire_on_path("/test/test"));
    assert!(!r.should_fire_on_path("/"));

    let r = Route::new("/test/<param1>", BoxCloneService::new(handler.into_service()))
        .expect("valid route");

    assert!(!r.should_fire_on_path("/test"));
    assert!(r.should_fire_on_path("/test/test"));
    assert!(!r.should_fire_on_path("/"));

    let r = Route::new("/test/<param1>/<param2>", BoxCloneService::new(handler.into_service()))
        .expect("valid route");

    assert!(r.should_fire_on_path("/test/1/2"));
    assert!(!r.should_fire_on_path("/test/test"));
    assert!(!r.should_fire_on_path("/"));
}

#[test]
fn server_test_should_fire_on_path() {
    fn handler() {}

    let r = Route::new(
        "/test",
        BoxCloneService::new(handler.into_service_with_state(())),
    )
    .expect("valid route");

    assert!(r.should_fire_on_path("/test"));
    assert!(!r.should_fire_on_path("/test/test"));
    assert!(!r.should_fire_on_path("/"));

    let r = Route::new(
        "/test/<param1>",
        BoxCloneService::new(handler.into_service_with_state(())),
    )
    .expect("valid route");

    assert!(!r.should_fire_on_path("/test"));
    assert!(r.should_fire_on_path("/test/test"));
    assert!(!r.should_fire_on_path("/"));

    let r = Route::new(
        "/test/<param1>/<param2>",
        BoxCloneService::new(handler.into_service_with_state(())),
    )
    .expect("valid route");

    assert!(r.should_fire_on_path("/test/1/2"));
    assert!(!r.should_fire_on_path("/test/test"));
    assert!(!r.should_fire_on_path("/"));
}

#[test]
fn param_segments_of_two_placeholders() {
    let map = parse_param_segments("/test/<param1>/<param2>".to_string()).unwrap();
    assert_eq!(map.len(), 2);
    assert_eq!(map.get(&0), Some(&1));
    assert_eq!(map.get(&1), Some(&2));
}

#[test]
fn unclosed_placeholder_is_refused() {
    assert_eq!(
        parse_param_segments("/a/<x".to_string()),
        Err(RegistrationError::UnclosedPlaceholder)
    );
    assert_eq!(
        parse_param_segments("<x>/a".to_string()),
        Err(RegistrationError::PlaceholderOutsidePath)
    );
}
