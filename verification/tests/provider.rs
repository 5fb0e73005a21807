use nkap::exchange_api::{
    check_response_status, fetch_available_currencies, FetchEvent, FetchStage, FetchStep,
    ProviderError,
};

fn step(stage: FetchStage, event: FetchEvent<u32>) -> (FetchStage, FetchStep<u32>) {
    fetch_available_currencies(stage, event)
}

fn is_rejected(step: &FetchStep<u32>) -> bool {
    matches!(step, FetchStep::Rejected)
}

#[test]
fn success_statuses_pass() {
    assert_eq!(check_response_status(200), Ok(()));
    assert_eq!(check_response_status(204), Ok(()));
    assert_eq!(check_response_status(299), Ok(()));
}

#[test]
fn status_401_is_an_invalid_credential() {
    assert_eq!(check_response_status(401), Err(ProviderError::Auth));
}

#[test]
fn status_403_is_the_over_use_restriction() {
    assert_eq!(check_response_status(403), Err(ProviderError::RateLimit));
}

#[test]
fn other_statuses_are_unexpected_and_carry_the_code() {
    for status in [0u16, 100, 199, 300, 301, 400, 402, 404, 429, 500, 503, 999, u16::MAX] {
        assert_eq!(
            check_response_status(status),
            Err(ProviderError::UnexpectedResponse(status))
        );
    }
}

#[test]
fn fetch_without_credential_fails_before_any_request() {
    let (stage, step) = step(FetchStage::Credential, FetchEvent::Credential(None));
    assert_eq!(stage, FetchStage::Over);
    assert!(matches!(step, FetchStep::Finish(Err(ProviderError::Config))));
}

#[test]
fn fetch_goes_from_credential_to_request_to_body() {
    let (stage, step1) = step(
        FetchStage::Credential,
        FetchEvent::Credential(Some("app-id".to_string())),
    );
    assert_eq!(stage, FetchStage::Response);
    assert!(matches!(step1, FetchStep::Request(ref id) if id == "app-id"));

    let (stage, step2) = step(stage, FetchEvent::Response(Some(200)));
    assert_eq!(stage, FetchStage::Body);
    assert!(matches!(step2, FetchStep::Decode));

    let (stage, step3) = step(stage, FetchEvent::Body(Some(7)));
    assert_eq!(stage, FetchStage::Over);
    assert!(matches!(step3, FetchStep::Finish(Ok(7))));
}

#[test]
fn fetch_maps_the_status_of_the_answer() {
    let (stage, step1) = step(FetchStage::Response, FetchEvent::Response(Some(401)));
    assert_eq!(stage, FetchStage::Over);
    assert!(matches!(step1, FetchStep::Finish(Err(ProviderError::Auth))));

    let (stage, step2) = step(FetchStage::Response, FetchEvent::Response(Some(403)));
    assert_eq!(stage, FetchStage::Over);
    assert!(matches!(step2, FetchStep::Finish(Err(ProviderError::RateLimit))));

    let (stage, step3) = step(FetchStage::Response, FetchEvent::Response(Some(500)));
    assert_eq!(stage, FetchStage::Over);
    assert!(matches!(
        step3,
        FetchStep::Finish(Err(ProviderError::UnexpectedResponse(500)))
    ));
}

#[test]
fn fetch_reports_a_request_that_did_not_get_through() {
    let (stage, step1) = step(FetchStage::Response, FetchEvent::Response(None));
    assert_eq!(stage, FetchStage::Over);
    assert!(matches!(step1, FetchStep::Finish(Err(ProviderError::Transport))));
}

#[test]
fn fetch_reports_a_body_that_does_not_decode() {
    let (stage, step1) = step(FetchStage::Body, FetchEvent::Body(None));
    assert_eq!(stage, FetchStage::Over);
    assert!(matches!(step1, FetchStep::Finish(Err(ProviderError::Decode))));
}

#[test]
fn fetch_rejects_what_does_not_belong_to_the_stage() {
    let (stage, step1) = step(FetchStage::Credential, FetchEvent::Response(Some(200)));
    assert_eq!(stage, FetchStage::Credential);
    assert!(is_rejected(&step1));

    let (stage, step2) = step(FetchStage::Response, FetchEvent::Body(Some(1)));
    assert_eq!(stage, FetchStage::Response);
    assert!(is_rejected(&step2));

    let (stage, step3) = step(FetchStage::Body, FetchEvent::Credential(None));
    assert_eq!(stage, FetchStage::Body);
    assert!(is_rejected(&step3));

    for event in [
        FetchEvent::Credential(Some("x".to_string())),
        FetchEvent::Response(Some(200)),
        FetchEvent::Body(Some(1)),
    ] {
        let (stage, step4) = step(FetchStage::Over, event);
        assert_eq!(stage, FetchStage::Over);
        assert!(is_rejected(&step4));
    }
}
