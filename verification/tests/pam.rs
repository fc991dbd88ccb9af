use holdfast::pam::{
    conversation, first_step, next_step, PamError, PamStep, PamVerifier, DEFAULT_PAM_SERVICE,
    MAX_PAM_SERVICE_BYTES, PAM_CONV_ERR, PAM_ERROR_MSG, PAM_PROMPT_ECHO_OFF, PAM_SUCCESS,
    PAM_TEXT_INFO,
};

#[test]
fn service_names_are_validated() {
    PamVerifier::new(DEFAULT_PAM_SERVICE).unwrap();
    PamVerifier::new("sshd").unwrap();
    for invalid in [
        "",
        "../evil",
        "has space",
        ".hidden",
        "slash/name",
        &"x".repeat(MAX_PAM_SERVICE_BYTES + 1),
    ] {
        assert!(PamVerifier::new(invalid).is_err(), "accepted {invalid:?}");
    }
}

#[test]
fn interior_nul_in_credentials_fails_closed() {
    assert_eq!(first_step("user\0name", "password"), PamStep::Deny);
    assert_eq!(first_step("username", "pass\0word"), PamStep::Deny);
    assert_eq!(first_step("username", "password"), PamStep::Start);
}

#[test]
fn a_service_keeps_its_name() {
    assert_eq!(PamVerifier::new("sshd").unwrap().service(), "sshd");
    assert_eq!(PamVerifier::new("a b"), Err(PamError::InvalidServiceName));
}

#[test]
fn every_call_must_succeed() {
    let step = next_step(PamStep::Start, PAM_SUCCESS);
    assert_eq!(step, PamStep::Authenticate);
    let step = next_step(step, PAM_SUCCESS);
    assert_eq!(step, PamStep::Account);
    assert_eq!(next_step(step, PAM_SUCCESS), PamStep::Accept);
    for (at, status) in [(PamStep::Start, 4), (PamStep::Authenticate, 7), (PamStep::Account, 13)] {
        assert_eq!(next_step(at, status), PamStep::Deny);
    }
}

#[test]
fn only_hidden_prompts_are_answered() {
    assert_eq!(
        conversation(&[PAM_TEXT_INFO, PAM_PROMPT_ECHO_OFF, PAM_ERROR_MSG]),
        Ok(vec![false, true, false])
    );
    assert_eq!(conversation(&[]), Err(PAM_CONV_ERR));
    assert_eq!(conversation(&[2]), Err(PAM_CONV_ERR));
    assert_eq!(conversation(&[PAM_PROMPT_ECHO_OFF; 33]), Err(PAM_CONV_ERR));
    assert!(conversation(&[PAM_PROMPT_ECHO_OFF; 32]).is_ok());
}
