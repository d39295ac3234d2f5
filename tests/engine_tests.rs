use authenticator::engine::{
    is_numeric_code, validate_totp_code, validate_totp_code_at, validate_totp_code_str, verify_code,
};
use authenticator::error::TotpError;

const KEY: &str = "GEZDGNBVGY3TQOJQGEZDGNBVGY3TQOJQ";
const RAW: &[u8] = b"12345678901234567890";

// 1111111109 lies in step 37037036 (code 081804);
// 1111111111 lies in step 37037037 (code 050471).
const T_A: i64 = 1111111109;
const T_B: i64 = 1111111111;

#[test]
fn current_step_code_accepted() {
    assert_eq!(verify_code(RAW, "081804", -1, T_A, 1), Ok(37037036));
    assert_eq!(verify_code(RAW, "081804", -1, T_A, 0), Ok(37037036));
    assert_eq!(verify_code(RAW, "287082", -1, 59, 0), Ok(1));
    assert_eq!(verify_code(RAW, "005924", 0, 1234567890, 1), Ok(41152263));
}

#[test]
fn current_step_code_replayed() {
    assert_eq!(verify_code(RAW, "081804", 37037036, T_A, 1), Err(TotpError::ReplayedCode));
    assert_eq!(verify_code(RAW, "081804", 37037036, T_A, 0), Err(TotpError::ReplayedCode));
    assert_eq!(verify_code(RAW, "081804", 40000000, T_A, 1), Err(TotpError::ReplayedCode));
}

#[test]
fn previous_step_accepted_once_with_drift() {
    assert_eq!(verify_code(RAW, "081804", -1, T_B, 1), Ok(37037036));
    assert_eq!(verify_code(RAW, "081804", 37037036, T_B, 1), Err(TotpError::ReplayedCode));
}

#[test]
fn next_step_accepted_once_with_drift() {
    assert_eq!(verify_code(RAW, "050471", -1, T_A, 1), Ok(37037037));
    assert_eq!(verify_code(RAW, "050471", 37037037, T_A, 1), Err(TotpError::ReplayedCode));
}

#[test]
fn two_steps_back_rejected_with_drift() {
    assert_eq!(verify_code(RAW, "081804", -1, T_B + 30, 1), Err(TotpError::InvalidCode));
}

#[test]
fn adjacent_steps_rejected_without_drift() {
    assert_eq!(verify_code(RAW, "081804", -1, T_B, 0), Err(TotpError::InvalidCode));
    assert_eq!(verify_code(RAW, "050471", -1, T_A, 0), Err(TotpError::InvalidCode));
    assert_eq!(verify_code(RAW, "050471", -1, T_B, 0), Ok(37037037));
}

#[test]
fn wrong_code_rejected() {
    assert_eq!(verify_code(RAW, "000000", -1, T_A, 1), Err(TotpError::InvalidCode));
    assert_eq!(verify_code(RAW, "", -1, T_A, 1), Err(TotpError::InvalidCode));
}

#[test]
fn negative_time_has_no_code() {
    assert_eq!(verify_code(RAW, "287082", -1, -5, 0), Err(TotpError::InvalidCode));
    assert_eq!(verify_code(RAW, "287082", -1, i64::MIN, 1), Err(TotpError::InvalidCode));
    assert_eq!(verify_code(RAW, "287082", -1, i64::MAX, 1), Err(TotpError::InvalidCode));
}

#[test]
fn validate_with_secret_text() {
    assert_eq!(validate_totp_code_at(KEY, "081804", -1, T_A, 1), Ok(37037036));
    assert_eq!(validate_totp_code_at("GEZDGNBV", "081804", -1, T_A, 1), Err(TotpError::InvalidSecretFormat));
    assert_eq!(validate_totp_code_at("!!", "081804", -1, T_A, 1), Err(TotpError::InvalidSecretFormat));
}

#[test]
fn validate_against_clock() {
    let now = std::time::SystemTime::now()
        .duration_since(std::time::UNIX_EPOCH)
        .unwrap()
        .as_secs();
    let code = totp_lite::totp_custom::<totp_lite::Sha1>(30, 6, RAW, now);
    let step = validate_totp_code(KEY, &code, -1, 1).unwrap();
    let expected = (now / 30) as i64;
    assert!(step >= expected - 1 && step <= expected + 1);
    assert_eq!(validate_totp_code(KEY, &code, step, 1), Err(TotpError::ReplayedCode));
    assert_eq!(validate_totp_code("GEZDGNBV", &code, -1, 1), Err(TotpError::InvalidSecretFormat));
}

#[test]
fn validate_str_checks_format_first() {
    assert_eq!(validate_totp_code_str("!!", "12a456", -1, 1), Err(TotpError::InvalidCodeFormat));
    assert_eq!(validate_totp_code_str(KEY, " 123456", -1, 1), Err(TotpError::InvalidCodeFormat));
    assert_eq!(validate_totp_code_str("!!", "123456", -1, 1), Err(TotpError::InvalidSecretFormat));
}

#[test]
fn numeric_codes() {
    assert!(is_numeric_code("123456"));
    assert!(is_numeric_code(""));
    assert!(!is_numeric_code("12 456"));
    assert!(!is_numeric_code("12345x"));
}
