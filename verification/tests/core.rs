use chat_core::auth::{Auth, Claims, JwtUtil, TOKEN_TTL_SECONDS};
use chat_core::config::AppConfig;
use chat_core::error::AppError;
use chat_core::payload::{format_payload, i64_to_dec, str_eq, u64_to_dec};

#[test]
fn error_codes_match_variants() {
    assert_eq!(AppError::NotFound("x".into()).code(), 404);
    assert_eq!(AppError::BadRequest("x".into()).code(), 400);
    assert_eq!(AppError::Internal("x".into()).code(), 500);
    assert_eq!(AppError::Unauthorized("x".into()).code(), 401);
}

#[test]
fn internal_error_message_is_masked() {
    let e = AppError::Internal("the database exploded".into());
    assert_eq!(e.response_message(), "Internal Server Error");
    assert_eq!(e.message(), "the database exploded");
    assert_eq!(e.display_message(), "Internal Error: the database exploded");
}

#[test]
fn other_error_messages_pass_through() {
    let e = AppError::NotFound("missing".into());
    assert_eq!(e.response_message(), "missing");
    assert_eq!(e.display_message(), "Not Found: missing");
    let e = AppError::Unauthorized("no".into());
    assert_eq!(e.response_message(), "no");
    assert_eq!(e.display_message(), "Unauthorized: no");
    let e = AppError::BadRequest("bad".into());
    assert_eq!(e.display_message(), "Bad Request: bad");
}

#[test]
fn config_assembles_from_complete_environment() {
    let cfg = AppConfig::from_env(
        Some("127.0.0.1".to_string()),
        Some(8080),
        Some("mysql://localhost/app".to_string()),
        Some("SECRET-REDACTED".to_string()),
    )
    .unwrap();
    assert_eq!(cfg.host, "127.0.0.1");
    assert_eq!(cfg.port, 8080);
    assert_eq!(cfg.database_url, "mysql://localhost/app");
    assert_eq!(cfg.jwt_secret, "SECRET-REDACTED");
}

#[test]
fn config_rejects_missing_or_bad_values() {
    assert!(matches!(
        AppConfig::from_env(None, Some(1), Some("d".into()), Some("s".into())),
        Err(AppError::Internal(_))
    ));
    assert!(matches!(
        AppConfig::from_env(Some("h".into()), None, Some("d".into()), Some("s".into())),
        Err(AppError::Internal(_))
    ));
    assert!(matches!(
        AppConfig::from_env(Some("h".into()), Some(65536), Some("d".into()), Some("s".into())),
        Err(AppError::Internal(_))
    ));
    assert!(matches!(
        AppConfig::from_env(Some("h".into()), Some(-1), Some("d".into()), Some("s".into())),
        Err(AppError::Internal(_))
    ));
    assert!(matches!(
        AppConfig::from_env(Some("h".into()), Some(80), Some("d".into()), None),
        Err(AppError::Internal(_))
    ));
}

#[test]
fn token_claims_expire_one_day_later() {
    let c = JwtUtil::token_claims(5, 1000);
    assert_eq!(c.sub, 5);
    assert_eq!(c.exp as i64, 1000 + TOKEN_TTL_SECONDS);
    assert!(!JwtUtil::is_expired(&c, 1000 + TOKEN_TTL_SECONDS - 1));
    assert!(JwtUtil::is_expired(&c, 1000 + TOKEN_TTL_SECONDS));
    assert!(!JwtUtil::is_expired(&c, -5));
}

#[test]
fn bearer_token_extraction() {
    assert_eq!(Auth::extract_bearer(Some("Bearer abc.def")), Some("abc.def".to_string()));
    assert_eq!(Auth::extract_bearer(Some("Bearer ")), Some("".to_string()));
    assert_eq!(Auth::extract_bearer(Some("bearer abc")), None);
    assert_eq!(Auth::extract_bearer(Some("Token abc")), None);
    assert_eq!(Auth::extract_bearer(Some("Bear")), None);
    assert_eq!(Auth::extract_bearer(None), None);
    let _ = Claims { sub: 1, exp: 2 };
    let _ = Auth { jwt_secret: "SECRET-REDACTED".to_string() };
}

#[test]
fn decimal_rendering_is_exact() {
    assert_eq!(u64_to_dec(0), "0");
    assert_eq!(u64_to_dec(907), "907");
    assert_eq!(i64_to_dec(-1), "-1");
    assert_eq!(i64_to_dec(i64::MAX), "9223372036854775807");
    assert_eq!(i64_to_dec(i64::MIN), "-9223372036854775808");
}

#[test]
fn payload_format_is_sender_colon_content() {
    assert_eq!(format_payload(1, "hi"), "1: hi");
    assert_eq!(format_payload(-42, "x y"), "-42: x y");
    assert_eq!(format_payload(0, ""), "0: ");
}

#[test]
fn str_eq_compares_by_characters() {
    assert!(str_eq("", ""));
    assert!(str_eq("abc", "abc"));
    assert!(!str_eq("abc", "abd"));
    assert!(!str_eq("abc", "ab"));
    assert!(str_eq("héllo", "héllo"));
    assert!(!str_eq("héllo", "hello"));
}

#[test]
fn payload_keeps_unicode_content() {
    assert_eq!(format_payload(8, "你好 world"), "8: 你好 world");
}
