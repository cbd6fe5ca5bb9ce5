use vstd::prelude::*;

use crate::engine::{billed_sum, IntegratedBillingEngine};
use crate::error::BillingError;
use crate::permission::{
    activate_post, debit_of, deduct_post, revoke_post, SpendingPermission,
};
use crate::service::{created_row, live_for, permissions_evolve, CreatePermissionRequest, CreatePermissionResponse, ZcashService};
use crate::permission::UNITS_PER_ZATOSHI;

verus! {

/// Every permission of a well-formed table satisfies the ledger identity:
/// what is left plus the rate times the hours used is what was approved.
pub proof fn lemma_ledger_identity(svc: &ZcashService, i: int)
    requires
        svc.wf(),
        0 <= i < svc.permissions@.len(),
    ensures
        svc.permissions@[i].remaining_amount + svc.permissions@[i].rate_per_hour
            * svc.permissions@[i].used_streaming_seconds == svc.permissions@[i].approved_amount,
{
    assert(svc.permissions@[i].wf());
}

/// A terminal permission shows the same amounts, hours and status in every
/// later observation of the table.
pub proof fn lemma_terminal_is_frozen(
    before: Seq<SpendingPermission>,
    after: Seq<SpendingPermission>,
    i: int,
)
    requires
        permissions_evolve(before, after),
        0 <= i < before.len(),
        before[i].status.spec_is_terminal(),
    ensures
        after[i].same_amounts(&before[i]),
        after[i].status == before[i].status,
{
    assert(after[i].id == before[i].id);
}

/// A wallet has at most one permission that is active with its deadline after
/// `now`.
pub proof fn lemma_one_live_permission_per_wallet(
    svc: &ZcashService,
    wallet: Seq<char>,
    now: i64,
    i: int,
    j: int,
)
    requires
        svc.wf(),
        live_for(svc.permissions@, i, wallet, now),
        live_for(svc.permissions@, j, wallet, now),
    ensures
        i == j,
{
    if i != j {
        assert(svc.permissions@[i].user_wallet_address@ != svc.permissions@[j].user_wallet_address@);
    }
}

/// A session's billed total is the sum of the amounts of its transactions.
pub proof fn lemma_session_total_is_sum(e: &IntegratedBillingEngine, i: int)
    requires
        e.wf(),
        0 <= i < e.sessions@.len(),
    ensures
        e.sessions@[i].total_amount_billed == billed_sum(e.transactions@, e.sessions@[i].id),
{
}

/// Session codes are unique among all sessions.
pub proof fn lemma_session_codes_unique(e: &IntegratedBillingEngine, i: int, j: int)
    requires
        e.wf(),
        0 <= i < e.sessions@.len(),
        0 <= j < e.sessions@.len(),
        e.sessions@[i].session_code@ == e.sessions@[j].session_code@,
    ensures
        i == j,
{
    if i != j {
        assert(e.sessions@[i].id != e.sessions@[j].id);
    }
}

/// A debit refused for want of balance leaves the amounts and hours exactly
/// as they were.
pub proof fn lemma_refused_debit_keeps_amounts(
    before: SpendingPermission,
    after: SpendingPermission,
    seconds: u64,
    now: i64,
)
    requires
        deduct_post(before, after, seconds, now, Err(BillingError::InsufficientBalance)),
    ensures
        after.same_amounts(&before),
        after.used_streaming_seconds == before.used_streaming_seconds,
        after.remaining_amount == before.remaining_amount,
{
}

/// Creating a permission, activating it with full funding and revoking it
/// leaves it revoked with nothing spent.
pub proof fn lemma_create_fund_revoke(
    created: SpendingPermission,
    activated: SpendingPermission,
    revoked: SpendingPermission,
    received_zatoshi: u128,
    funded_at: i64,
    revoked_at: i64,
    r: Result<(), BillingError>,
)
    requires
        created.wf(),
        created.status is Pending,
        created.remaining_amount == created.approved_amount,
        activate_post(created, activated, received_zatoshi, funded_at, Ok(())),
        revoke_post(activated, revoked, revoked_at, r),
    ensures
        r is Ok,
        revoked.status is Revoked,
        revoked.remaining_amount == revoked.approved_amount,
        revoked.approved_amount == created.approved_amount,
{
}

/// Revoking or verifying a terminal permission again fails with
/// `InvalidState` and changes nothing.
pub proof fn lemma_terminal_resubmission_is_noop(
    p: SpendingPermission,
    after_revoke: SpendingPermission,
    after_verify: SpendingPermission,
    received_zatoshi: u128,
    now: i64,
    r1: Result<(), BillingError>,
    r2: Result<(), BillingError>,
)
    requires
        p.status.spec_is_terminal(),
        revoke_post(p, after_revoke, now, r1),
        activate_post(p, after_verify, received_zatoshi, now, r2),
    ensures
        r1 == Err::<(), BillingError>(BillingError::InvalidState),
        r2 == Err::<(), BillingError>(BillingError::InvalidState),
        after_revoke.unchanged_from(&p),
        after_verify.unchanged_from(&p),
{
}

/// A debit of exactly what is left succeeds and exhausts the permission.
pub proof fn lemma_exact_debit_exhausts(
    before: SpendingPermission,
    after: SpendingPermission,
    seconds: u64,
    now: i64,
    r: Result<(), BillingError>,
)
    requires
        before.wf(),
        before.status is Active,
        now < before.expires_at,
        debit_of(before.rate_per_hour, seconds) == before.remaining_amount,
        deduct_post(before, after, seconds, now, r),
    ensures
        r is Ok,
        after.remaining_amount == 0,
        after.status is Exhausted,
{
    if seconds == 0 {
        assert(before.rate_per_hour * seconds == 0) by (nonlinear_arith)
            requires
                seconds == 0,
        ;
    }
}

/// A debit at the very instant of the deadline expires the permission and
/// fails with `Expired`.
pub proof fn lemma_debit_at_deadline_expires(
    before: SpendingPermission,
    after: SpendingPermission,
    seconds: u64,
    r: Result<(), BillingError>,
)
    requires
        before.status is Active,
        deduct_post(before, after, seconds, before.expires_at, r),
    ensures
        r == Err::<(), BillingError>(BillingError::Expired),
        after.status is Expired,
        after.same_amounts(&before),
{
}

/// A debit of zero hours on a live permission succeeds and changes nothing.
pub proof fn lemma_zero_debit_is_noop(
    before: SpendingPermission,
    after: SpendingPermission,
    now: i64,
    r: Result<(), BillingError>,
)
    requires
        before.wf(),
        before.status is Active,
        now < before.expires_at,
        deduct_post(before, after, 0, now, r),
    ensures
        r is Ok,
        after.unchanged_from(&before),
{
    assert(before.rate_per_hour * 0u64 == 0) by (nonlinear_arith);
}

/// A newly created permission satisfies the ledger identity, with nothing used.
pub proof fn lemma_creation_establishes_identity(
    p: SpendingPermission,
    resp: CreatePermissionResponse,
    request: CreatePermissionRequest,
    id: u128,
    now: i64,
    pay_to: Seq<char>,
)
    requires
        created_row(p, resp, request, id, now, pay_to),
    ensures
        p.remaining_amount + p.rate_per_hour * p.used_streaming_seconds == p.approved_amount,
        p.remaining_amount == p.approved_amount,
        p.used_streaming_seconds == 0,
{
    assert(p.rate_per_hour * p.used_streaming_seconds == 0) by (nonlinear_arith)
        requires
            p.used_streaming_seconds == 0,
    ;
}

/// A pending permission whose verified receipts cover it is activated with its
/// whole balance.
pub proof fn lemma_paid_pending_activates(
    p: SpendingPermission,
    q: SpendingPermission,
    received_zatoshi: u128,
    now: i64,
    r: Result<(), BillingError>,
)
    requires
        p.status is Pending,
        received_zatoshi * UNITS_PER_ZATOSHI >= p.approved_amount,
        activate_post(p, q, received_zatoshi, now, r),
    ensures
        r is Ok,
        q.status is Active,
        q.remaining_amount == p.remaining_amount,
        q.used_streaming_seconds == p.used_streaming_seconds,
{
}

/// A short payment leaves the permission pending, so a later check with full
/// funding activates it.
pub proof fn lemma_retry_after_short_payment(
    p: SpendingPermission,
    after_short: SpendingPermission,
    activated: SpendingPermission,
    short_zatoshi: u128,
    full_zatoshi: u128,
    first_at: i64,
    second_at: i64,
    r1: Result<(), BillingError>,
    r2: Result<(), BillingError>,
)
    requires
        p.status is Pending,
        short_zatoshi * UNITS_PER_ZATOSHI < p.approved_amount,
        full_zatoshi * UNITS_PER_ZATOSHI >= p.approved_amount,
        activate_post(p, after_short, short_zatoshi, first_at, r1),
        activate_post(after_short, activated, full_zatoshi, second_at, r2),
    ensures
        r1 is Err,
        after_short.status is Pending,
        r2 is Ok,
        activated.status is Active,
        activated.remaining_amount == p.remaining_amount,
{
}

/// A debit that the balance covers, before the deadline, removes exactly the
/// rate times the seconds and adds the seconds to the time used.
pub proof fn lemma_covered_debit_applies(
    before: SpendingPermission,
    after: SpendingPermission,
    seconds: u64,
    now: i64,
    r: Result<(), BillingError>,
)
    requires
        before.status is Active,
        now < before.expires_at,
        debit_of(before.rate_per_hour, seconds) <= before.remaining_amount,
        deduct_post(before, after, seconds, now, r),
    ensures
        r is Ok,
        after.remaining_amount == before.remaining_amount - debit_of(before.rate_per_hour, seconds),
        after.used_streaming_seconds == before.used_streaming_seconds + seconds,
{
    if seconds == 0 {
        assert(before.rate_per_hour * seconds == 0) by (nonlinear_arith)
            requires
                seconds == 0,
        ;
    }
}

/// A debit at or after the deadline expires the permission and debits nothing.
pub proof fn lemma_late_debit_expires(
    before: SpendingPermission,
    after: SpendingPermission,
    seconds: u64,
    now: i64,
    r: Result<(), BillingError>,
)
    requires
        before.status is Active,
        now >= before.expires_at,
        deduct_post(before, after, seconds, now, r),
    ensures
        r == Err::<(), BillingError>(BillingError::Expired),
        after.status is Expired,
        after.same_amounts(&before),
{
}

} // verus!
