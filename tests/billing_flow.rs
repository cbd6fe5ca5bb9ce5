use paygo_billing::engine::{IntegratedBillingEngine, TickOutcome};
use paygo_billing::error::BillingError;
use paygo_billing::permission::{PermissionStatus, SpendingPermission, UNITS_PER_ZATOSHI};
use paygo_billing::service::{CreatePermissionRequest, ZcashService};
use paygo_billing::session::{SessionStatus, StreamingSession, TransactionStatus, VendorInfo};

const COIN: u64 = 100_000_000;
const T: i64 = 1_700_000_000_000;
const SEC: i64 = 1000;
const WALLET: &str = "t1Abcdefghijklmnopqrstuvwxyz0123456";
const VENDOR_WALLET: &str = "0x1234567890abcdef1234567890ABCDEF12345678";

fn units(zatoshi: u64) -> u128 {
    zatoshi as u128 * UNITS_PER_ZATOSHI
}

fn vendor(rate: u64) -> VendorInfo {
    VendorInfo {
        id: "vendor-1".to_string(),
        wallet_address: VENDOR_WALLET.to_string(),
        rate_per_hour: rate,
        currency: "ZEC".to_string(),
    }
}

fn request(amount: u64, rate: u64, days: i64) -> CreatePermissionRequest {
    CreatePermissionRequest {
        user_wallet_address: WALLET.to_string(),
        requested_amount: amount,
        rate_per_hour: rate,
        duration_days: days,
    }
}

/// A permission for WALLET, funded and active, created at `at`.
fn funded_engine(amount: u64, rate: u64, days: i64, at: i64, interval: u64) -> IntegratedBillingEngine {
    let mut svc = ZcashService::new("zs1custodial".to_string());
    svc.create_spending_permission_with_id(request(amount, rate, days), 1, at).unwrap();
    svc.verify_and_activate_permission(1, amount as u128, at).unwrap();
    IntegratedBillingEngine::new(svc, interval)
}

fn permission(e: &IntegratedBillingEngine) -> SpendingPermission {
    e.zcash_service.get_permission(1).unwrap()
}

fn session(e: &IntegratedBillingEngine, code: &str) -> StreamingSession {
    let i = e.find_session_by_code(&code.to_string()).unwrap();
    e.sessions[i].clone()
}

fn open(e: &mut IntegratedBillingEngine, code: &str, id: u128, rate: u64, at: i64) {
    e.open_session(WALLET.to_string(), "vendor-1".to_string(), &vendor(rate), id, code.to_string(), at)
        .unwrap();
}

fn ledger_identity_holds(p: &SpendingPermission) -> bool {
    p.remaining_amount + p.rate_per_hour as u128 * p.used_streaming_seconds == p.approved_amount
}

#[test]
fn happy_path_create_fund_stream_end() {
    let mut svc = ZcashService::new("zs1custodial".to_string());
    let resp = svc
        .create_spending_permission_with_id(request(100 * COIN, 10 * COIN, 30), 7, T)
        .unwrap();
    assert_eq!(resp.permission_id, 7);
    assert_eq!(resp.max_streaming_seconds, 10 * 3600);
    assert_eq!(resp.amount_to_pay, 100 * COIN);
    assert_eq!(resp.payment_address, "zs1custodial");
    assert_eq!(resp.expires_at, T + 30 * 86_400_000);
    let p = svc.verify_and_activate_permission(7, (100 * COIN) as u128, T).unwrap();
    assert_eq!(p.status, PermissionStatus::Active);

    let mut e = IntegratedBillingEngine::new(svc, 60);
    let opened = e
        .open_session(WALLET.to_string(), "vendor-1".to_string(), &vendor(10 * COIN), 11, "ABCDEFGHJKLM".to_string(), T)
        .unwrap();
    assert_eq!(opened.session_id, 11);
    let tx = e.end_session_with_permission(&"ABCDEFGHJKLM".to_string(), T + 6 * 60 * SEC).unwrap();
    assert_eq!(tx.amount, units(COIN));
    assert_eq!(tx.duration_minutes, 6);
    assert_eq!(tx.tx_hash, None);
    assert_eq!(tx.status, TransactionStatus::Confirmed);
    let p = e.zcash_service.get_permission(7).unwrap();
    assert_eq!(p.remaining_amount, units(99 * COIN));
    assert_eq!(p.used_streaming_seconds, 360);
    let s = session(&e, "ABCDEFGHJKLM");
    assert_eq!(s.status, SessionStatus::Completed);
    assert_eq!(s.end_time, Some(T + 6 * 60 * SEC));
    assert_eq!(s.total_amount_billed, units(COIN));
}

#[test]
fn scheduler_debits_actual_elapsed_time() {
    let mut e = funded_engine(5 * COIN, 10 * COIN, 30, T - SEC, 30);
    open(&mut e, "SCHED0000001", 21, 10 * COIN, T);
    let fallback = e.process_active_sessions_with_permissions(T + 60 * SEC);
    assert!(fallback.is_empty());
    assert_eq!(e.transactions.len(), 1);
    // 10 coins an hour for a minute: 0.1666... coin, exactly 60 * rate units
    assert_eq!(e.transactions[0].amount, 10 * COIN as u128 * 60);
    assert_eq!(session(&e, "SCHED0000001").last_billed_time, T + 60 * SEC);
    e.process_active_sessions_with_permissions(T + 90 * SEC);
    assert_eq!(e.transactions.len(), 2);
    assert_eq!(e.transactions[1].amount, 10 * COIN as u128 * 30);
    assert_eq!(session(&e, "SCHED0000001").last_billed_time, T + 90 * SEC);
    let p = permission(&e);
    assert_eq!(p.used_streaming_seconds, 90);
    assert!(ledger_identity_holds(&p));
}

#[test]
fn exhaustion_pauses_session_and_keeps_balance() {
    let mut e = funded_engine(5_000_000, 10 * COIN, 30, T - SEC, 60);
    open(&mut e, "EXHAUST00001", 31, 10 * COIN, T);
    let outcome = e.bill_session_tick(0, T + 60 * SEC);
    assert!(matches!(outcome, TickOutcome::Paused));
    let p = permission(&e);
    assert_eq!(p.status, PermissionStatus::Exhausted);
    assert_eq!(p.remaining_amount, units(5_000_000));
    assert_eq!(p.used_streaming_seconds, 0);
    assert!(ledger_identity_holds(&p));
    assert_eq!(session(&e, "EXHAUST00001").status, SessionStatus::Paused);
    assert!(e.transactions.is_empty());
}

#[test]
fn expiry_race_fails_session() {
    let day = 86_400_000;
    let mut e = funded_engine(100 * COIN, 10 * COIN, 1, T - day, 30);
    assert_eq!(permission(&e).expires_at, T);
    open(&mut e, "EXPIRY000001", 41, 10 * COIN, T - 30 * SEC);
    let outcome = e.bill_session_tick(0, T + SEC);
    assert!(matches!(outcome, TickOutcome::Failed(BillingError::Expired)));
    assert_eq!(session(&e, "EXPIRY000001").status, SessionStatus::Failed);
    let p = permission(&e);
    assert_eq!(p.status, PermissionStatus::Expired);
    assert_eq!(p.remaining_amount, p.approved_amount);
    assert!(e.transactions.is_empty());
}

#[test]
fn short_payment_then_full_payment() {
    let mut svc = ZcashService::new("zs1custodial".to_string());
    svc.create_spending_permission_with_id(request(100 * COIN, 10 * COIN, 30), 1, T).unwrap();
    let r = svc.verify_and_activate_permission(1, (50 * COIN) as u128, T);
    assert_eq!(
        r.unwrap_err(),
        BillingError::PaymentShort { expected: (100 * COIN) as u128, got: (50 * COIN) as u128 }
    );
    assert_eq!(svc.get_permission(1).unwrap().status, PermissionStatus::Pending);
    let p = svc.verify_and_activate_permission(1, (100 * COIN) as u128, T + SEC).unwrap();
    assert_eq!(p.status, PermissionStatus::Active);
    assert_eq!(p.updated_at, T + SEC);
}

#[test]
fn create_fund_revoke_round_trip() {
    let mut svc = ZcashService::new("zs1custodial".to_string());
    svc.create_spending_permission_with_id(request(100 * COIN, 10 * COIN, 30), 1, T).unwrap();
    svc.verify_and_activate_permission(1, (100 * COIN) as u128, T).unwrap();
    let p = svc.revoke_permission(1, T + SEC).unwrap();
    assert_eq!(p.status, PermissionStatus::Revoked);
    assert_eq!(p.remaining_amount, p.approved_amount);
}

#[test]
fn resubmitting_on_terminal_permission_changes_nothing() {
    let mut svc = ZcashService::new("zs1custodial".to_string());
    svc.create_spending_permission_with_id(request(100 * COIN, 10 * COIN, 30), 1, T).unwrap();
    svc.revoke_permission(1, T).unwrap();
    let before = svc.get_permission(1).unwrap();
    assert_eq!(svc.revoke_permission(1, T + SEC).unwrap_err(), BillingError::InvalidState);
    assert_eq!(
        svc.verify_and_activate_permission(1, (100 * COIN) as u128, T + SEC).unwrap_err(),
        BillingError::InvalidState
    );
    let after = svc.get_permission(1).unwrap();
    assert_eq!(after.status, PermissionStatus::Revoked);
    assert_eq!(after.updated_at, before.updated_at);
    assert_eq!(after.remaining_amount, before.remaining_amount);
}

#[test]
fn tick_before_interval_is_a_no_op() {
    let mut e = funded_engine(100 * COIN, 10 * COIN, 30, T, 60);
    open(&mut e, "NOTDUE000001", 51, 10 * COIN, T);
    let before = session(&e, "NOTDUE000001");
    let fallback = e.process_active_sessions_with_permissions(T + 59 * SEC);
    assert!(fallback.is_empty());
    assert!(e.transactions.is_empty());
    let after = session(&e, "NOTDUE000001");
    assert_eq!(after.last_billed_time, before.last_billed_time);
    assert_eq!(after.updated_at, before.updated_at);
    assert_eq!(permission(&e).used_streaming_seconds, 0);
}

#[test]
fn debit_of_exactly_what_is_left_exhausts() {
    let mut svc = ZcashService::new("zs1custodial".to_string());
    // one coin at one coin an hour: an hour of streaming
    svc.create_spending_permission_with_id(request(COIN, COIN, 30), 1, T).unwrap();
    svc.verify_and_activate_permission(1, COIN as u128, T).unwrap();
    let p = svc.deduct_streaming_time(1, 3600, T + SEC).unwrap();
    assert_eq!(p.remaining_amount, 0);
    assert_eq!(p.status, PermissionStatus::Exhausted);
    assert_eq!(p.used_streaming_seconds, 3600);
}

#[test]
fn debit_at_deadline_expires() {
    let mut svc = ZcashService::new("zs1custodial".to_string());
    svc.create_spending_permission_with_id(request(COIN, COIN, 1), 1, T).unwrap();
    svc.verify_and_activate_permission(1, COIN as u128, T).unwrap();
    let deadline = T + 86_400_000;
    assert_eq!(svc.deduct_streaming_time(1, 10, deadline).unwrap_err(), BillingError::Expired);
    let p = svc.get_permission(1).unwrap();
    assert_eq!(p.status, PermissionStatus::Expired);
    assert_eq!(p.remaining_amount, p.approved_amount);
    assert_eq!(p.used_streaming_seconds, 0);
}

#[test]
fn zero_hour_debit_changes_nothing() {
    let mut svc = ZcashService::new("zs1custodial".to_string());
    svc.create_spending_permission_with_id(request(COIN, COIN, 1), 1, T).unwrap();
    svc.verify_and_activate_permission(1, COIN as u128, T).unwrap();
    let before = svc.get_permission(1).unwrap();
    let p = svc.deduct_streaming_time(1, 0, T + SEC).unwrap();
    assert_eq!(p.status, PermissionStatus::Active);
    assert_eq!(p.remaining_amount, before.remaining_amount);
    assert_eq!(p.used_streaming_seconds, 0);
    assert_eq!(p.updated_at, before.updated_at);
}

#[test]
fn insufficient_debit_keeps_amounts() {
    let mut svc = ZcashService::new("zs1custodial".to_string());
    svc.create_spending_permission_with_id(request(COIN, COIN, 1), 1, T).unwrap();
    svc.verify_and_activate_permission(1, COIN as u128, T).unwrap();
    svc.deduct_streaming_time(1, 600, T + SEC).unwrap();
    let before = svc.get_permission(1).unwrap();
    assert_eq!(svc.deduct_streaming_time(1, 3600, T + 2 * SEC).unwrap_err(), BillingError::InsufficientBalance);
    let after = svc.get_permission(1).unwrap();
    assert_eq!(after.remaining_amount, before.remaining_amount);
    assert_eq!(after.used_streaming_seconds, before.used_streaming_seconds);
    assert_eq!(after.status, PermissionStatus::Exhausted);
}

#[test]
fn terminal_permission_is_frozen() {
    let mut svc = ZcashService::new("zs1custodial".to_string());
    svc.create_spending_permission_with_id(request(COIN, COIN, 1), 1, T).unwrap();
    svc.verify_and_activate_permission(1, COIN as u128, T).unwrap();
    svc.deduct_streaming_time(1, 3600, T + SEC).unwrap();
    let before = svc.get_permission(1).unwrap();
    assert_eq!(svc.deduct_streaming_time(1, 1, T + 2 * SEC).unwrap_err(), BillingError::InvalidState);
    assert_eq!(svc.check_expired_permissions(T + 2 * 86_400_000), 0);
    let after = svc.get_permission(1).unwrap();
    assert_eq!(after.status, PermissionStatus::Exhausted);
    assert_eq!(after.remaining_amount, before.remaining_amount);
    assert_eq!(after.used_streaming_seconds, before.used_streaming_seconds);
}

#[test]
fn ledger_identity_holds_through_debits() {
    let mut svc = ZcashService::new("zs1custodial".to_string());
    svc.create_spending_permission_with_id(request(7 * COIN, 3 * COIN, 30), 1, T).unwrap();
    svc.verify_and_activate_permission(1, (7 * COIN) as u128, T).unwrap();
    for k in 1..6 {
        let p = svc.deduct_streaming_time(1, 97 * k, T + k as i64 * SEC).unwrap();
        assert!(ledger_identity_holds(&p));
    }
    let p = svc.get_permission(1).unwrap();
    assert_eq!(p.used_streaming_seconds, 97 * 15);
    assert_eq!(p.remaining_amount, units(7 * COIN) - 3 * COIN as u128 * 97 * 15);
}

#[test]
fn one_live_permission_per_wallet() {
    let mut svc = ZcashService::new("zs1custodial".to_string());
    svc.create_spending_permission_with_id(request(COIN, COIN, 1), 1, T).unwrap();
    svc.create_spending_permission_with_id(request(COIN, COIN, 30), 2, T).unwrap();
    svc.verify_and_activate_permission(1, COIN as u128, T).unwrap();
    assert_eq!(svc.verify_and_activate_permission(2, COIN as u128, T + SEC).unwrap_err(), BillingError::StoreError);
    assert_eq!(svc.get_permission(2).unwrap().status, PermissionStatus::Pending);
    // once the first one's deadline has come, the second one takes over
    let later = T + 86_400_000;
    let p = svc.verify_and_activate_permission(2, COIN as u128, later).unwrap();
    assert_eq!(p.status, PermissionStatus::Active);
    assert_eq!(svc.get_permission(1).unwrap().status, PermissionStatus::Expired);
    let live = svc.get_active_permission_by_wallet(&WALLET.to_string(), later).unwrap();
    assert_eq!(live.id, 2);
}

#[test]
fn session_total_is_sum_of_its_transactions() {
    let mut e = funded_engine(100 * COIN, 10 * COIN, 30, T - SEC, 60);
    open(&mut e, "SUMSESSION01", 61, 10 * COIN, T);
    open(&mut e, "SUMSESSION02", 62, 10 * COIN, T + 30 * SEC);
    e.process_active_sessions_with_permissions(T + 61 * SEC);
    e.process_active_sessions_with_permissions(T + 125 * SEC);
    e.end_session_with_permission(&"SUMSESSION02".to_string(), T + 200 * SEC).unwrap();
    for s in &e.sessions {
        let sum: u128 = e.transactions.iter().filter(|t| t.session_id == s.id).map(|t| t.amount).sum();
        assert_eq!(s.total_amount_billed, sum);
    }
    assert_eq!(e.transactions.len(), 4);
    assert!(ledger_identity_holds(&permission(&e)));
}

#[test]
fn expiry_sweep_expires_past_due_permissions() {
    let mut svc = ZcashService::new("zs1custodial".to_string());
    svc.create_spending_permission_with_id(request(COIN, COIN, 1), 1, T).unwrap();
    svc.verify_and_activate_permission(1, COIN as u128, T).unwrap();
    let deadline = T + 86_400_000;
    assert_eq!(svc.check_expired_permissions(deadline), 0);
    assert_eq!(svc.check_expired_permissions(deadline + 1), 1);
    assert_eq!(svc.get_permission(1).unwrap().status, PermissionStatus::Expired);
    assert_eq!(svc.check_expired_permissions(deadline + 2), 0);
}

#[test]
fn permission_status_report() {
    let mut svc = ZcashService::new("zs1custodial".to_string());
    svc.create_spending_permission_with_id(request(10 * COIN, 4 * COIN, 30), 1, T).unwrap();
    let s = svc.get_permission_status(1).unwrap();
    assert_eq!(s.remaining_seconds, 9000);
    assert_eq!(s.status, PermissionStatus::Pending);
    assert_eq!(svc.get_permission_status(2).unwrap_err(), BillingError::NotFound);
}

#[test]
fn permission_creation_rejects_bad_input() {
    let mut svc = ZcashService::new("zs1custodial".to_string());
    let bad = [request(0, COIN, 30), request(COIN, 0, 30), request(COIN, COIN, 0), request(COIN, COIN, 366)];
    for r in bad {
        assert_eq!(svc.create_spending_permission_with_id(r, 1, T).unwrap_err(), BillingError::Validation);
    }
    svc.create_spending_permission_with_id(request(COIN, COIN, 365), 1, T).unwrap();
    assert_eq!(
        svc.create_spending_permission_with_id(request(COIN, COIN, 1), 1, T).unwrap_err(),
        BillingError::StoreError
    );
    let mut empty = ZcashService::new("zs1custodial".to_string());
    let first = empty.create_spending_permission(request(2 * COIN, COIN, 3), T).unwrap();
    assert_eq!(first.max_streaming_seconds, 7200);
    assert_eq!(first.amount_to_pay, 2 * COIN);
    assert_eq!(
        empty.create_spending_permission(request(0, COIN, 3), T).unwrap_err(),
        BillingError::Validation
    );
    let fresh = svc.create_spending_permission(request(COIN, COIN, 1), T).unwrap();
    assert_eq!(svc.get_permission(fresh.permission_id).unwrap().status, PermissionStatus::Pending);
    assert_eq!(svc.deduct_streaming_time(99, 1, T).unwrap_err(), BillingError::NotFound);
}

#[test]
fn session_creation_errors() {
    let mut e = IntegratedBillingEngine::new(ZcashService::new("zs1custodial".to_string()), 60);
    let r = e.open_session(WALLET.to_string(), "v".to_string(), &vendor(COIN), 1, "AAAAAAAAAAAA".to_string(), T);
    assert_eq!(r.unwrap_err(), BillingError::NotFound);

    let mut e = funded_engine(100 * COIN, 10 * COIN, 30, T, 60);
    let mut bad = vendor(COIN);
    bad.wallet_address = "0x12345".to_string();
    let r = e.open_session(WALLET.to_string(), "v".to_string(), &bad, 1, "AAAAAAAAAAAA".to_string(), T);
    assert_eq!(r.unwrap_err(), BillingError::ExternalServiceError);
    let r = e.open_session(WALLET.to_string(), "v".to_string(), &vendor(1000 * COIN + 1), 1, "AAAAAAAAAAAA".to_string(), T);
    assert_eq!(r.unwrap_err(), BillingError::ExternalServiceError);
    open(&mut e, "AAAAAAAAAAAA", 1, COIN, T);
    let r = e.open_session(WALLET.to_string(), "v".to_string(), &vendor(COIN), 2, "AAAAAAAAAAAA".to_string(), T);
    assert_eq!(r.unwrap_err(), BillingError::StoreError);
    let r = e.open_session(WALLET.to_string(), "v".to_string(), &vendor(COIN), 1, "BBBBBBBBBBBB".to_string(), T);
    assert_eq!(r.unwrap_err(), BillingError::StoreError);
    assert_eq!(e.get_session_permission_id(1), Some(1));
}

#[test]
fn created_sessions_get_distinct_codes() {
    let mut e = funded_engine(100 * COIN, 10 * COIN, 30, T, 60);
    let mut codes = Vec::new();
    for _ in 0..20 {
        let r = e.create_session_with_permission(WALLET.to_string(), "vendor-1".to_string(), &vendor(COIN), T).unwrap();
        assert_eq!(r.session_code.len(), 12);
        assert!(r.session_code.chars().all(|c| c.is_ascii_uppercase() || c.is_ascii_digit()));
        assert!(!codes.contains(&r.session_code));
        codes.push(r.session_code);
    }
    let other = "t1Zyxwvutsrqponmlkjihgfedcba9876543".to_string();
    assert_eq!(
        e.create_session_with_permission(other, "vendor-1".to_string(), &vendor(COIN), T).unwrap_err(),
        BillingError::NotFound
    );
}

#[test]
fn end_session_errors_and_failures() {
    let mut e = funded_engine(COIN, COIN, 30, T, 60);
    assert_eq!(e.end_session_with_permission(&"NOSUCHCODE00".to_string(), T).unwrap_err(), BillingError::NotFound);
    open(&mut e, "ENDSESSION01", 1, COIN, T);
    e.end_session_with_permission(&"ENDSESSION01".to_string(), T + 60 * SEC).unwrap();
    assert_eq!(
        e.end_session_with_permission(&"ENDSESSION01".to_string(), T + 70 * SEC).unwrap_err(),
        BillingError::InvalidState
    );
    open(&mut e, "ENDSESSION02", 2, COIN, T + 70 * SEC);
    // two hours on a permission with under an hour left
    let r = e.end_session_with_permission(&"ENDSESSION02".to_string(), T + 70 * SEC + 7_200 * SEC);
    assert_eq!(r.unwrap_err(), BillingError::InsufficientBalance);
    assert_eq!(session(&e, "ENDSESSION02").status, SessionStatus::Failed);
    assert_eq!(e.transactions.len(), 1);
}

#[test]
fn activate_restarts_open_sessions_only() {
    let mut e = funded_engine(5_000_000, 10 * COIN, 30, T - SEC, 60);
    open(&mut e, "ACTIVATE0001", 1, 10 * COIN, T);
    assert!(matches!(e.bill_session_tick(0, T + 60 * SEC), TickOutcome::Paused));
    let s = e.activate_session(&"ACTIVATE0001".to_string(), T + 120 * SEC).unwrap();
    assert_eq!(s.status, SessionStatus::Active);
    assert_eq!(s.start_time, T + 120 * SEC);
    assert_eq!(s.last_billed_time, T + 120 * SEC);
    assert_eq!(e.activate_session(&"UNKNOWNCODE0".to_string(), T).unwrap_err(), BillingError::NotFound);
    let mut e = funded_engine(100 * COIN, 10 * COIN, 30, T, 60);
    open(&mut e, "ACTIVATE0002", 2, 10 * COIN, T);
    e.end_session_with_permission(&"ACTIVATE0002".to_string(), T + SEC).unwrap();
    assert_eq!(
        e.activate_session(&"ACTIVATE0002".to_string(), T + 2 * SEC).unwrap_err(),
        BillingError::InvalidState
    );
}

#[test]
fn unlinked_session_goes_to_fallback() {
    let mut e = IntegratedBillingEngine::new(ZcashService::new("zs1custodial".to_string()), 60);
    e.open_unlinked_session(
        VENDOR_WALLET.to_string(),
        "vendor-1".to_string(),
        &vendor(2 * COIN),
        9,
        "LEGACY000001".to_string(),
        T,
    )
    .unwrap();
    assert_eq!(e.get_session_permission_id(9), None);
    let r = e.create_unlinked_session(VENDOR_WALLET.to_string(), "v".to_string(), &vendor(0), T);
    assert_eq!(r.unwrap_err(), BillingError::ExternalServiceError);
    let charges = e.process_active_sessions_with_permissions(T + 120 * SEC);
    assert_eq!(charges.len(), 1);
    let c = charges[0].clone();
    assert_eq!(c.session_id, 9);
    assert_eq!(c.amount, 2 * COIN as u128 * 120);
    assert_eq!(c.duration_minutes, 2);
    assert!(c.covered_by(c.amount));
    assert!(!c.covered_by(c.amount - 1));
    assert_eq!(c.check_balance(Ok(c.amount)), Ok(()));
    assert_eq!(c.check_balance(Ok(c.amount - 1)), Err(BillingError::InsufficientBalance));
    assert_eq!(c.check_balance(Err(BillingError::ChainError)), Err(BillingError::ChainError));
    let t = e.settle_fallback_charge(&c, Ok("0xhash".to_string()), T + 121 * SEC).unwrap();
    assert_eq!(t.tx_hash, Some("0xhash".to_string()));
    assert_eq!(session(&e, "LEGACY000001").total_amount_billed, c.amount);
    let charges = e.process_active_sessions_with_permissions(T + 300 * SEC);
    let r = e.settle_fallback_charge(&charges[0], Err(BillingError::ChainError), T + 301 * SEC);
    assert_eq!(r.unwrap_err(), BillingError::ChainError);
    assert_eq!(session(&e, "LEGACY000001").status, SessionStatus::Failed);
    assert_eq!(e.transactions.len(), 1);
}

#[test]
fn streaming_capacity_reports_live_permission() {
    let e = funded_engine(10 * COIN, 4 * COIN, 30, T, 60);
    let c = e.get_user_streaming_capacity(&WALLET.to_string(), T + SEC);
    assert!(c.has_permission);
    assert_eq!(c.remaining_balance, units(10 * COIN));
    assert_eq!(c.remaining_seconds, 9000);
    assert_eq!(c.rate_per_hour, 4 * COIN);
    let none = e.get_user_streaming_capacity(&"t1nobody".to_string(), T);
    assert!(!none.has_permission);
    assert_eq!(none.remaining_balance, 0);
    assert_eq!(none.expires_at, None);
}
