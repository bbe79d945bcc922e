use door25::browser_auth::browser_claims_step;
use door25::browser_auth::browser_token_from_cookies;
use door25::browser_auth::browser_token_step;
use door25::browser_auth::AuthDecision;
use door25::browser_auth::TokenStep;
use door25::browser_auth::ValidationEvent;

#[test]
fn token_cookie_alone() {
    assert_eq!(browser_token_from_cookies(b"token=abc"), Some(b"abc".to_vec()));
}

#[test]
fn token_cookie_among_others() {
    assert_eq!(
        browser_token_from_cookies(b"theme=dark; token=xyz; lang=en"),
        Some(b"xyz".to_vec())
    );
}

#[test]
fn token_cookie_is_trimmed() {
    assert_eq!(browser_token_from_cookies(b"  token=abc  "), Some(b"abc".to_vec()));
    assert_eq!(browser_token_from_cookies(b"a=1;\t token=abc"), Some(b"abc".to_vec()));
}

#[test]
fn token_cookie_missing() {
    assert_eq!(browser_token_from_cookies(b"a=1; b=2"), None);
    assert_eq!(browser_token_from_cookies(b""), None);
    // The marker must start the piece: a mid-piece occurrence does not count.
    assert_eq!(browser_token_from_cookies(b"xtoken=abc"), None);
}

#[test]
fn token_cookie_repeated_marker_is_stripped() {
    assert_eq!(browser_token_from_cookies(b"token=token=x"), Some(b"x".to_vec()));
}

#[test]
fn token_cookie_first_piece_wins() {
    assert_eq!(
        browser_token_from_cookies(b"token=one; token=two"),
        Some(b"one".to_vec())
    );
}

#[test]
fn missing_or_empty_token_redirects() {
    assert_eq!(browser_token_step(None), TokenStep::RedirectToLogin);
    assert_eq!(browser_token_step(Some(b"a=1")), TokenStep::RedirectToLogin);
    assert_eq!(browser_token_step(Some(b"token=")), TokenStep::RedirectToLogin);
    assert_eq!(
        browser_token_step(Some(b"token=abc")),
        TokenStep::Validate(b"abc".to_vec())
    );
}

#[test]
fn claims_decide_the_request() {
    assert_eq!(
        browser_claims_step(ValidationEvent::ConfigError),
        AuthDecision::InternalError
    );
    assert_eq!(
        browser_claims_step(ValidationEvent::Invalid),
        AuthDecision::RedirectToLogin
    );
    assert_eq!(
        browser_claims_step(ValidationEvent::Valid(String::new())),
        AuthDecision::RedirectToLogin
    );
    assert_eq!(
        browser_claims_step(ValidationEvent::Valid("user-1".to_string())),
        AuthDecision::Proceed("user-1".to_string())
    );
}
