use korgi_beats::auth::{bearer_token, AuthRejection, AuthUser, Claims};
use korgi_beats::config::Config;

fn config(hours: i64) -> Config {
    Config {
        http_server_host: "127.0.0.1".to_string(),
        http_server_port: 8080,
        db_url: "sqlite::memory:".to_string(),
        jwt_secret: "secret".to_string(),
        jwt_expires_hours: hours,
    }
}

#[test]
fn issued_claims_expire_after_configured_hours() {
    let c = Claims::issue("user-1", 1_700_000_000, &config(24)).unwrap();
    assert_eq!(c.sub, "user-1");
    assert_eq!(c.iat, 1_700_000_000);
    assert_eq!(c.exp, 1_700_086_400);
}

#[test]
fn issued_claims_out_of_range_expiry() {
    assert!(Claims::issue("u", 1_700_000_000, &config(i64::MAX)).is_none());
}

#[test]
fn bearer_token_is_taken_after_the_scheme() {
    assert_eq!(bearer_token(Some("Bearer abc.def.ghi")).unwrap(), "abc.def.ghi");
    assert_eq!(bearer_token(Some("Bearer ")).unwrap(), "");
}

#[test]
fn bearer_token_missing_or_other_scheme() {
    assert_eq!(bearer_token(None).unwrap_err(), AuthRejection::MissingToken);
    assert_eq!(bearer_token(Some("bearer abc")).unwrap_err(), AuthRejection::MissingToken);
    assert_eq!(bearer_token(Some("Basic abc")).unwrap_err(), AuthRejection::MissingToken);
    assert_eq!(bearer_token(Some("Bearer")).unwrap_err(), AuthRejection::MissingToken);
}

#[test]
fn rejections_are_unauthorized_with_their_texts() {
    assert_eq!(AuthRejection::MissingToken.status_code(), 401);
    assert_eq!(AuthRejection::InvalidToken.status_code(), 401);
    assert_eq!(AuthRejection::MissingToken.error_text(), "Missing or invalid Authorization header");
    assert_eq!(AuthRejection::InvalidToken.error_text(), "Invalid or expired token");
}

#[test]
fn authenticated_user_is_token_subject() {
    let c = Claims { sub: "user-7".to_string(), exp: 10, iat: 5 };
    assert_eq!(AuthUser::from_verified(Some(c)).ok().unwrap().id, "user-7");
    assert_eq!(AuthUser::from_verified(None).err().unwrap(), AuthRejection::InvalidToken);
}
