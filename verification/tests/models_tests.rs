use xcbridge::models::SuccessResponse;
use xcbridge::models::default_configuration;

#[test]
fn default_configuration_is_debug() {
    assert_eq!(default_configuration(), "Debug".to_string());
}

#[test]
fn success_response_carries_its_message() {
    let r = SuccessResponse::new("All simulators shut down".to_string());
    assert!(r.success);
    assert_eq!(r.message, "All simulators shut down".to_string());
}
