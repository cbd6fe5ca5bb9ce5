use paygo_billing::chain::{
    decimal_to_zatoshi, is_test_endpoint, rpc_auth_mode, sender_in_details, sender_in_spends,
    test_address_valid, verified_total, wallet_balance_from_texts, AuthMode, ReceivedPayment,
};
use paygo_billing::config::{lookup, parse_u64, Config, ZcashConfig};
use paygo_billing::error::BillingError;
use paygo_billing::permission::PermissionStatus;
use paygo_billing::service::{CreatePermissionRequest, ZcashService};
use paygo_billing::rate_limit::{configure_rate_limits, InMemoryRateLimiter};
use paygo_billing::session::{check_vendor, elapsed_seconds, generate_session_code, VendorInfo};
use paygo_billing::validation::Validator;

#[test]
fn duration_days_bounds() {
    assert_eq!(Validator::validate_duration_days(0), Err(BillingError::Validation));
    assert_eq!(Validator::validate_duration_days(-3), Err(BillingError::Validation));
    assert_eq!(Validator::validate_duration_days(1), Ok(()));
    assert_eq!(Validator::validate_duration_days(365), Ok(()));
    assert_eq!(Validator::validate_duration_days(366), Err(BillingError::Validation));
}

#[test]
fn streaming_duration_bounds() {
    assert_eq!(Validator::validate_streaming_duration(0), Ok(()));
    assert_eq!(Validator::validate_streaming_duration(86_400), Ok(()));
    assert_eq!(Validator::validate_streaming_duration(86_401), Err(BillingError::Validation));
}

#[test]
fn amount_and_rate_bounds() {
    assert_eq!(Validator::validate_amount(0), Err(BillingError::Validation));
    assert_eq!(Validator::validate_amount(1), Ok(()));
    assert_eq!(Validator::validate_amount(100_000_000_000), Ok(()));
    assert_eq!(Validator::validate_amount(100_000_000_001), Err(BillingError::Validation));
    assert_eq!(Validator::validate_rate_per_hour(0), Err(BillingError::Validation));
    assert_eq!(Validator::validate_rate_per_hour(1_000_000_000), Ok(()));
    assert_eq!(Validator::validate_rate_per_hour(100_000_000_001), Err(BillingError::Validation));
}

#[test]
fn sanitize_keeps_safe_characters() {
    assert_eq!(Validator::sanitize_string("<b>vendor-1_x@y.z!</b>"), "bvendor-1_x@y.zb");
    assert_eq!(Validator::sanitize_string(""), "");
    assert_eq!(Validator::sanitize_string("café 42"), "café42");
}

#[test]
fn vendor_id_validation() {
    assert_eq!(Validator::validate_and_sanitize_vendor_id("vendor-1!"), Ok("vendor-1".to_string()));
    assert_eq!(Validator::validate_and_sanitize_vendor_id("!!!"), Err(BillingError::Validation));
    assert_eq!(Validator::validate_and_sanitize_vendor_id("a@b"), Err(BillingError::Validation));
    assert_eq!(Validator::validate_vendor_id("abc_DEF-09"), Ok(()));
    assert_eq!(Validator::validate_vendor_id(""), Err(BillingError::Validation));
    assert_eq!(Validator::validate_vendor_id(&"a".repeat(255)), Ok(()));
    assert_eq!(Validator::validate_vendor_id(&"a".repeat(256)), Err(BillingError::Validation));
}

#[test]
fn address_and_code_formats() {
    assert_eq!(Validator::validate_ethereum_address("0x1234567890abcdef1234567890ABCDEF12345678"), Ok(()));
    assert_eq!(Validator::validate_ethereum_address("0x1234"), Err(BillingError::Validation));
    assert_eq!(Validator::validate_zcash_address(&format!("t1{}", "a".repeat(33))), Ok(()));
    assert_eq!(Validator::validate_zcash_address(&format!("zs1{}", "b1".repeat(16) + "c")), Ok(()));
    assert_eq!(Validator::validate_zcash_address("t1short"), Err(BillingError::Validation));
    assert_eq!(Validator::validate_session_code("ABCDEF123456"), Ok(()));
    assert_eq!(Validator::validate_session_code("abcdef123456"), Err(BillingError::Validation));
}

#[test]
fn uuid_validation() {
    let v = Validator::validate_uuid("67e55044-10b1-426f-9247-bb680e5fe0c8").unwrap();
    assert_eq!(v, 0x67e5504410b1426f9247bb680e5fe0c8);
    assert_eq!(Validator::validate_permission_id("67e5504410b1426f9247bb680e5fe0c8"), Ok(v));
    assert_eq!(Validator::validate_uuid("not-a-uuid"), Err(BillingError::Validation));
}

#[test]
fn session_codes_are_twelve_upper_alphanumerics() {
    for _ in 0..50 {
        let code = generate_session_code();
        assert_eq!(code.chars().count(), 12);
        assert!(code.chars().all(|c| c.is_ascii_uppercase() || c.is_ascii_digit()));
        assert_eq!(Validator::validate_session_code(&code), Ok(()));
    }
}

#[test]
fn vendor_terms() {
    let mut v = VendorInfo {
        id: "v".to_string(),
        wallet_address: "0x1234567890abcdef1234567890ABCDEF12345678".to_string(),
        rate_per_hour: 100_000_000_000,
        currency: "ZEC".to_string(),
    };
    assert_eq!(check_vendor(&v), Ok(()));
    v.rate_per_hour = 0;
    assert_eq!(check_vendor(&v), Err(BillingError::ExternalServiceError));
    v.rate_per_hour = 1;
    v.wallet_address = "0x1234567890abcdef1234567890ABCDEF1234567g".to_string();
    assert_eq!(check_vendor(&v), Err(BillingError::ExternalServiceError));
}

#[test]
fn elapsed_whole_seconds() {
    assert_eq!(elapsed_seconds(1_000, 62_999), 61);
    assert_eq!(elapsed_seconds(5_000, 5_000), 0);
    assert_eq!(elapsed_seconds(9_000, 1_000), 0);
    assert_eq!(elapsed_seconds(i64::MIN, i64::MAX), (u64::MAX / 1000));
}

#[test]
fn status_names_round_trip() {
    let all = [
        PermissionStatus::Pending,
        PermissionStatus::Approved,
        PermissionStatus::Active,
        PermissionStatus::Exhausted,
        PermissionStatus::Expired,
        PermissionStatus::Revoked,
    ];
    for s in all {
        assert_eq!(PermissionStatus::from_name(s.as_str()), Ok(s));
    }
    assert_eq!(PermissionStatus::Active.as_str(), "active");
    assert_eq!(PermissionStatus::from_name("EXPIRED"), Ok(PermissionStatus::Expired));
    assert_eq!(PermissionStatus::from_name("done"), Err(BillingError::Validation));
    assert_eq!(PermissionStatus::from_lowercase_name("revoked"), Ok(PermissionStatus::Revoked));
    assert_eq!(PermissionStatus::from_lowercase_name("Revoked"), Err(BillingError::Validation));
}

#[test]
fn auth_mode_follows_scheme() {
    assert_eq!(rpc_auth_mode("https://zec.example.io"), AuthMode::ApiKey);
    assert_eq!(rpc_auth_mode("http://127.0.0.1:8232"), AuthMode::UserPassword);
    assert_eq!(rpc_auth_mode("httpx://node"), AuthMode::UserPassword);
}

#[test]
fn test_node_rules() {
    assert!(is_test_endpoint("http://localhost:8232"));
    assert!(!is_test_endpoint("http://127.0.0.1:8232"));
    assert!(test_address_valid(&format!("t1{}", "x".repeat(33))));
    assert!(!test_address_valid(&format!("t2{}", "x".repeat(33))));
    assert!(!test_address_valid("t1abc"));
}

#[test]
fn only_verified_receipts_count() {
    let payments = vec![
        ReceivedPayment { amount_zatoshi: 5_000_000_000, txid: Some("a".to_string()), sender_verified: true },
        ReceivedPayment { amount_zatoshi: 10_000_000_000, txid: Some("b".to_string()), sender_verified: false },
        ReceivedPayment { amount_zatoshi: 7, txid: None, sender_verified: true },
    ];
    assert_eq!(verified_total(&payments), 5_000_000_000);
    let unknown = vec![ReceivedPayment {
        amount_zatoshi: 10_000_000_000,
        txid: Some("c".to_string()),
        sender_verified: false,
    }];
    assert_eq!(verified_total(&unknown), 0);
    assert_eq!(verified_total(&Vec::new()), 0);
}

#[test]
fn unverified_sender_leaves_permission_pending() {
    let mut svc = ZcashService::new("zs1custodial".to_string());
    let req = CreatePermissionRequest {
        user_wallet_address: "t1user".to_string(),
        requested_amount: 10_000_000_000,
        rate_per_hour: 1_000_000_000,
        duration_days: 30,
    };
    svc.create_spending_permission_with_id(req, 1, 0).unwrap();
    let details = vec!["t1stranger".to_string()];
    let verified = sender_in_details(&details, "t1user");
    assert!(!verified);
    let received = verified_total(&vec![ReceivedPayment {
        amount_zatoshi: 10_000_000_000,
        txid: Some("tx".to_string()),
        sender_verified: verified,
    }]);
    assert_eq!(received, 0);
    let r = svc.verify_and_activate_permission(1, received, 0);
    assert_eq!(r.unwrap_err(), BillingError::PaymentShort { expected: 10_000_000_000, got: 0 });
    assert_eq!(svc.get_permission(1).unwrap().status, PermissionStatus::Pending);
}

#[test]
fn sender_lookup_in_details_and_spends() {
    let details = vec!["t1a".to_string(), "t1user".to_string()];
    assert!(sender_in_details(&details, "t1user"));
    assert!(!sender_in_details(&details, "t1us"));
    let spends = vec!["key:zs1other".to_string(), "key:t1user:x".to_string()];
    assert!(sender_in_spends(&spends, "t1user"));
    assert!(!sender_in_spends(&spends, "t1nobody"));
}

#[test]
fn balance_texts_to_zatoshi() {
    let b = wallet_balance_from_texts("t1w", "1.5", "0.25", 100_000_000);
    assert_eq!(b.transparent_balance, 150_000_000);
    assert_eq!(b.shielded_balance, 25_000_000);
    assert_eq!(b.total_balance, 175_000_000);
    assert!(b.can_stream);
    assert_eq!(b.estimated_seconds, 6300);
    assert_eq!(b.wallet_address, "t1w");
    let none = wallet_balance_from_texts("t1w", "oops", "", 100_000_000);
    assert_eq!(none.total_balance, 0);
    assert!(!none.can_stream);
    let free = wallet_balance_from_texts("t1w", "2", "0", 0);
    assert_eq!(free.estimated_seconds, 0);
    assert_eq!(decimal_to_zatoshi(123_456_789, 10), 1_234_567);
    assert_eq!(decimal_to_zatoshi(3, 0), 300_000_000);
    assert_eq!(decimal_to_zatoshi(-3, 0), 0);
}

#[test]
fn rate_limit_table() {
    let limits = configure_rate_limits();
    assert_eq!(limits.len(), 5);
    assert_eq!(limits[0], ("/api/v1/health", 1000, 60));
    assert_eq!(limits[2], ("/api/v1/zcash/permissions", 10, 60));
    assert_eq!(limits[4], ("default", 100, 60));
}

#[test]
fn sliding_window_limiter() {
    let mut l = InMemoryRateLimiter::new(2, 1000);
    let k = "1.2.3.4:/api".to_string();
    assert!(l.is_allowed(&k, 0));
    assert!(l.is_allowed(&k, 10));
    assert!(!l.is_allowed(&k, 20));
    assert!(l.is_allowed(&"other".to_string(), 20));
    assert!(!l.is_allowed(&k, 1000));
    assert!(l.is_allowed(&k, 1005));
    assert_eq!(l.requests[0].1, vec![10, 1005]);
    let mut closed = InMemoryRateLimiter::new(0, 1000);
    assert!(!closed.is_allowed(&k, 0));
}

fn vars(pairs: &[(&str, &str)]) -> Vec<(String, String)> {
    pairs.iter().map(|(k, v)| (k.to_string(), v.to_string())).collect()
}

#[test]
fn config_defaults_and_requirements() {
    let base = [
        ("DATABASE_URL", "postgres://db"),
        ("RPC_URL", "ws://chain"),
        ("CONTRACT_ADDRESS", "0xabc"),
        ("PRIVATE_KEY", "SECRET-REDACTED"),
        ("CHAIN_ID", "5"),
        ("VENDOR_SERVICE_URL", "http://vendors"),
        ("VENDOR_SERVICE_TOKEN", "SECRET-REDACTED"),
        ("ZCASH_RPC_USER", "u"),
        ("ZCASH_RPC_PASSWORD", "p"),
        ("ZCASH_SERVICE_WALLET", "zs1custodial"),
    ];
    let c = Config::from_vars(&vars(&base)).unwrap();
    assert_eq!(c.redis_url, "redis://127.0.0.1:6379");
    assert_eq!(c.host, "0.0.0.0");
    assert_eq!(c.port, 8080);
    assert_eq!(c.billing_interval_seconds, 60);
    assert_eq!(c.chain_id, 5);
    assert_eq!(c.zcash.rpc_url, "http://127.0.0.1:8232");
    assert_eq!(c.zcash.min_confirmations, 1);
    assert_eq!(c.zcash.default_permission_duration_days, 30);

    let mut more = vars(&base);
    more.push(("PORT".to_string(), "9090".to_string()));
    more.push(("BILLING_INTERVAL_SECONDS".to_string(), "30".to_string()));
    let c = Config::from_vars(&more).unwrap();
    assert_eq!(c.port, 9090);
    assert_eq!(c.billing_interval_seconds, 30);

    let mut bad = vars(&base);
    bad.push(("PORT".to_string(), "70000".to_string()));
    assert_eq!(Config::from_vars(&bad).unwrap_err(), BillingError::Validation);
    assert_eq!(Config::from_vars(&vars(&base[1..])).unwrap_err(), BillingError::Validation);
    assert_eq!(ZcashConfig::from_vars(&vars(&base[..7])).unwrap_err(), BillingError::Validation);
    assert_eq!(lookup(&vars(&[("A", "1"), ("A", "2")]), "A"), Some("2".to_string()));
    assert_eq!(lookup(&vars(&[("A", "1")]), "B"), None);
}

#[test]
fn unsigned_parse_matches_std() {
    let cases = ["0", "42", "+7", "", "+", "-1", "12a", "18446744073709551615", "18446744073709551616", "007", " 1"];
    for c in cases {
        assert_eq!(parse_u64(c), c.parse::<u64>().ok(), "{}", c);
    }
    assert_eq!(parse_u64("8080"), Some(8080));
}
