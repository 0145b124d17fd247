use scripthub::token::{
    bearer_header_value, client_user_agent, status_indicates_success, verify_endpoint,
    verify_outcome,
};

#[test]
fn status_200_verifies() {
    assert_eq!(verify_outcome(Ok(200)), Ok(true));
}

#[test]
fn status_401_does_not_verify() {
    assert_eq!(verify_outcome(Ok(401)), Ok(false));
}

#[test]
fn success_range_boundaries() {
    assert!(!status_indicates_success(199));
    assert!(status_indicates_success(200));
    assert!(status_indicates_success(204));
    assert!(status_indicates_success(299));
    assert!(!status_indicates_success(300));
    assert!(!status_indicates_success(500));
}

#[test]
fn transport_failure_propagates_as_error() {
    let r = verify_outcome(Err("connection refused".to_string()));
    assert_eq!(r, Err("connection refused".to_string()));
}

#[test]
fn fixed_request_parameters() {
    assert_eq!(verify_endpoint(), "https://api.github.com/user");
    assert_eq!(client_user_agent(), "ScriptHub-App");
}

#[test]
fn bearer_header_carries_the_token() {
    assert_eq!(bearer_header_value("tok123"), "Bearer tok123".to_string());
    assert_eq!(bearer_header_value(""), "Bearer ".to_string());
}
