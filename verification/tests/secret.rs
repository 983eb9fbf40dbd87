use halter_providers::secret::SecretString;

#[test]
fn debug_and_display_redact() {
    let secret = SecretString::new("hunter2".to_owned());
    assert_eq!(secret.debug_text(), "SecretString(<redacted>)");
    assert_eq!(secret.display_text(), "<redacted>");
}

#[test]
fn expose_secret_returns_wrapped_value() {
    let secret = SecretString::from("hunter2".to_owned());
    assert_eq!(secret.expose_secret(), "hunter2");
}

#[test]
fn eq_is_structural() {
    assert!(SecretString::from("a") == SecretString::from("a"));
    assert!(SecretString::from("a") != SecretString::from("b"));
}
