use vstd::prelude::*;

use crate::error::BillingError;
use crate::text::{lowercase_of, same_text, to_lowercase};

verus! {

/// Ledger units in one zatoshi. A rate is given in zatoshi per hour, so one
/// second at a rate of `r` costs exactly `r` ledger units.
pub const UNITS_PER_ZATOSHI: u128 = 3600;

/// Milliseconds in one day.
pub const MILLIS_PER_DAY: i64 = 86_400_000;

/// Longest lifetime of a permission, in days.
pub const MAX_DURATION_DAYS: i64 = 365;

#[derive(Clone, Copy, Debug, PartialEq, Eq, Structural)]
pub enum PermissionStatus {
    Pending,
    /// Reserved; no transition produces it.
    Approved,
    Active,
    Exhausted,
    Expired,
    Revoked,
}

/// The lower-case name under which a status is stored.
pub open spec fn status_name(s: PermissionStatus) -> Seq<char> {
    match s {
        PermissionStatus::Pending => "pending"@,
        PermissionStatus::Approved => "approved"@,
        PermissionStatus::Active => "active"@,
        PermissionStatus::Exhausted => "exhausted"@,
        PermissionStatus::Expired => "expired"@,
        PermissionStatus::Revoked => "revoked"@,
    }
}

impl PermissionStatus {
    /// The lower-case name under which the status is stored.
    pub fn as_str(&self) -> (r: &'static str)
        ensures
            r@ == status_name(*self),
    {
        match self {
            PermissionStatus::Pending => "pending",
            PermissionStatus::Approved => "approved",
            PermissionStatus::Active => "active",
            PermissionStatus::Exhausted => "exhausted",
            PermissionStatus::Expired => "expired",
            PermissionStatus::Revoked => "revoked",
        }
    }

    /// The status whose stored name is exactly `name`; `Validation` for any
    /// other text.
    pub fn from_lowercase_name(name: &str) -> (r: Result<PermissionStatus, BillingError>)
        ensures
            r matches Ok(s) ==> status_name(s) == name@,
            r is Err <==> forall|s: PermissionStatus| #[trigger] status_name(s) != name@,
            r is Err ==> r == Err::<PermissionStatus, BillingError>(BillingError::Validation),
    {
        if same_text(name, "pending") {
            assert(status_name(PermissionStatus::Pending) == name@);
            Ok(PermissionStatus::Pending)
        } else if same_text(name, "approved") {
            assert(status_name(PermissionStatus::Approved) == name@);
            Ok(PermissionStatus::Approved)
        } else if same_text(name, "active") {
            assert(status_name(PermissionStatus::Active) == name@);
            Ok(PermissionStatus::Active)
        } else if same_text(name, "exhausted") {
            assert(status_name(PermissionStatus::Exhausted) == name@);
            Ok(PermissionStatus::Exhausted)
        } else if same_text(name, "expired") {
            assert(status_name(PermissionStatus::Expired) == name@);
            Ok(PermissionStatus::Expired)
        } else if same_text(name, "revoked") {
            assert(status_name(PermissionStatus::Revoked) == name@);
            Ok(PermissionStatus::Revoked)
        } else {
            assert forall|s: PermissionStatus| #[trigger] status_name(s) != name@ by {
                match s {
                    PermissionStatus::Pending => {},
                    PermissionStatus::Approved => {},
                    PermissionStatus::Active => {},
                    PermissionStatus::Exhausted => {},
                    PermissionStatus::Expired => {},
                    PermissionStatus::Revoked => {},
                }
            }
            Err(BillingError::Validation)
        }
    }

    /// The status named by `name`, in any case; `Validation` for any other text.
    pub fn from_name(name: &str) -> (r: Result<PermissionStatus, BillingError>)
        ensures
            r matches Ok(s) ==> status_name(s) == lowercase_of(name@),
            r is Err <==> forall|s: PermissionStatus| #[trigger] status_name(s) != lowercase_of(name@),
            r is Err ==> r == Err::<PermissionStatus, BillingError>(BillingError::Validation),
    {
        let lower = to_lowercase(name);
        Self::from_lowercase_name(lower.as_str())
    }

    pub open spec fn spec_is_terminal(self) -> bool {
        self is Exhausted || self is Expired || self is Revoked
    }

    /// Exhausted, expired and revoked permissions never change again.
    pub fn is_terminal(&self) -> (r: bool)
        ensures
            r == self.spec_is_terminal(),
    {
        match self {
            PermissionStatus::Exhausted | PermissionStatus::Expired | PermissionStatus::Revoked => true,
            _ => false,
        }
    }
}

/// A prepaid, time-bounded, rate-locked allowance.
///
/// Amounts are ledger units (see `UNITS_PER_ZATOSHI`), the rate is zatoshi per
/// hour, streaming time is counted in seconds and instants are milliseconds
/// since the Unix epoch.
#[derive(Clone, Debug)]
pub struct SpendingPermission {
    pub id: u128,
    pub user_wallet_address: String,
    pub approved_amount: u128,
    pub remaining_amount: u128,
    pub rate_per_hour: u64,
    pub max_streaming_seconds: u128,
    pub used_streaming_seconds: u128,
    pub status: PermissionStatus,
    pub expires_at: i64,
    pub created_at: i64,
    pub updated_at: i64,
}

/// What a debit of `seconds` costs at `rate_per_hour` zatoshi per hour, in
/// ledger units.
pub open spec fn debit_of(rate_per_hour: u64, seconds: u64) -> int {
    rate_per_hour * seconds
}

/// The outcome of a debit of `seconds` at `now` that took `old` to `new`.
///
/// Only an active permission is debited. At or after its deadline it turns
/// `Expired` and the call fails; a debit larger than what is left turns it
/// `Exhausted` and fails without touching the amounts; otherwise the debit is
/// applied (a zero debit changes nothing), and a permission left with nothing
/// turns `Exhausted`.
pub open spec fn deduct_post(
    old: SpendingPermission,
    new: SpendingPermission,
    seconds: u64,
    now: i64,
    r: Result<(), BillingError>,
) -> bool {
    let debit = debit_of(old.rate_per_hour, seconds);
    if !(old.status is Active) {
        r == Err::<(), BillingError>(BillingError::InvalidState) && new.unchanged_from(&old)
    } else if now >= old.expires_at {
        r == Err::<(), BillingError>(BillingError::Expired) && new.restatus_of(
            &old,
            PermissionStatus::Expired,
            now,
        )
    } else if debit > old.remaining_amount {
        r == Err::<(), BillingError>(BillingError::InsufficientBalance) && new.restatus_of(
            &old,
            PermissionStatus::Exhausted,
            now,
        )
    } else if seconds == 0 {
        r is Ok && new.unchanged_from(&old)
    } else {
        &&& r is Ok
        &&& new.remaining_amount == old.remaining_amount - debit
        &&& new.used_streaming_seconds == old.used_streaming_seconds + seconds
        &&& new.status == (if new.remaining_amount == 0 {
            PermissionStatus::Exhausted
        } else {
            PermissionStatus::Active
        })
        &&& new.approved_amount == old.approved_amount
        &&& new.rate_per_hour == old.rate_per_hour
        &&& new.max_streaming_seconds == old.max_streaming_seconds
        &&& new.id == old.id
        &&& new.user_wallet_address@ == old.user_wallet_address@
        &&& new.expires_at == old.expires_at
        &&& new.created_at == old.created_at
        &&& new.updated_at == now
    }
}

/// The outcome of a funding check that found `received_zatoshi` from the
/// permission's wallet at `now`.
///
/// Only a pending permission is activated, and only when what was received
/// covers the approved amount; otherwise the call fails (`InvalidState`,
/// `PaymentShort`) and changes nothing.
pub open spec fn activate_post(
    old: SpendingPermission,
    new: SpendingPermission,
    received_zatoshi: u128,
    now: i64,
    r: Result<(), BillingError>,
) -> bool {
    if !(old.status is Pending) {
        r == Err::<(), BillingError>(BillingError::InvalidState) && new.unchanged_from(&old)
    } else if received_zatoshi * UNITS_PER_ZATOSHI < old.approved_amount {
        r == Err::<(), BillingError>(
            BillingError::PaymentShort {
                expected: (old.approved_amount / UNITS_PER_ZATOSHI) as u128,
                got: received_zatoshi,
            },
        ) && new.unchanged_from(&old)
    } else {
        r is Ok && new.restatus_of(&old, PermissionStatus::Active, now)
    }
}

/// The outcome of a revocation at `now`: a permission that is not terminal is
/// revoked; a terminal one fails with `InvalidState` and stays as it is.
pub open spec fn revoke_post(
    old: SpendingPermission,
    new: SpendingPermission,
    now: i64,
    r: Result<(), BillingError>,
) -> bool {
    if old.status.spec_is_terminal() {
        r == Err::<(), BillingError>(BillingError::InvalidState) && new.unchanged_from(&old)
    } else {
        r is Ok && new.restatus_of(&old, PermissionStatus::Revoked, now)
    }
}

impl SpendingPermission {
    /// The ledger identity: what is left plus what was used is what was approved.
    pub open spec fn ledger_identity(&self) -> bool {
        self.remaining_amount + self.rate_per_hour * self.used_streaming_seconds
            == self.approved_amount
    }

    pub open spec fn wf(&self) -> bool {
        &&& self.rate_per_hour > 0
        &&& self.ledger_identity()
        &&& self.max_streaming_seconds == self.approved_amount as int / (self.rate_per_hour as int)
        &&& (self.status is Pending ==> self.used_streaming_seconds == 0
            && self.remaining_amount > 0)
        &&& (self.status is Active ==> self.remaining_amount > 0)
    }

    /// The amounts of two observations of one permission agree.
    pub open spec fn same_amounts(&self, other: &SpendingPermission) -> bool {
        &&& self.approved_amount == other.approved_amount
        &&& self.remaining_amount == other.remaining_amount
        &&& self.used_streaming_seconds == other.used_streaming_seconds
        &&& self.rate_per_hour == other.rate_per_hour
        &&& self.max_streaming_seconds == other.max_streaming_seconds
    }

    /// `self` is `old` with the status and the audit time replaced.
    pub open spec fn restatus_of(&self, old: &SpendingPermission, s: PermissionStatus, now: i64) -> bool {
        &&& self.same_amounts(old)
        &&& self.id == old.id
        &&& self.user_wallet_address@ == old.user_wallet_address@
        &&& self.expires_at == old.expires_at
        &&& self.created_at == old.created_at
        &&& self.status == s
        &&& self.updated_at == now
    }

    /// `self` and `old` are the same observation.
    pub open spec fn unchanged_from(&self, old: &SpendingPermission) -> bool {
        &&& self.restatus_of(old, old.status, old.updated_at)
    }

    /// Deducts `seconds` of streaming at `now` (milliseconds), as `deduct_post`
    /// describes.
    pub fn deduct_streaming_time(&mut self, seconds: u64, now: i64) -> (r: Result<(), BillingError>)
        requires
            old(self).wf(),
        ensures
            final(self).wf(),
            deduct_post(*old(self), *final(self), seconds, now, r),
    {
        if self.status != PermissionStatus::Active {
            return Err(BillingError::InvalidState);
        }
        if now >= self.expires_at {
            self.status = PermissionStatus::Expired;
            self.updated_at = now;
            return Err(BillingError::Expired);
        }
        proof {
            assert(self.rate_per_hour * seconds <= u64::MAX * u64::MAX) by (nonlinear_arith);
        }
        let debit: u128 = self.rate_per_hour as u128 * seconds as u128;
        if debit > self.remaining_amount {
            self.status = PermissionStatus::Exhausted;
            self.updated_at = now;
            return Err(BillingError::InsufficientBalance);
        }
        if seconds == 0 {
            assert(self.rate_per_hour * seconds == 0) by (nonlinear_arith)
                requires
                    seconds == 0,
            ;
            return Ok(());
        }
        proof {
            assert(self.rate_per_hour * (self.used_streaming_seconds + seconds) == self.rate_per_hour
                * self.used_streaming_seconds + self.rate_per_hour * seconds) by (nonlinear_arith);
            assert(self.rate_per_hour * (self.used_streaming_seconds + seconds) <= self.approved_amount);
            assert(self.used_streaming_seconds + seconds <= self.rate_per_hour * (
            self.used_streaming_seconds + seconds)) by (nonlinear_arith)
                requires
                    self.rate_per_hour > 0,
                    self.used_streaming_seconds + seconds >= 0,
            ;
        }
        self.remaining_amount = self.remaining_amount - debit;
        self.used_streaming_seconds = self.used_streaming_seconds + seconds as u128;
        self.updated_at = now;
        if self.remaining_amount == 0 {
            self.status = PermissionStatus::Exhausted;
        }
        Ok(())
    }
}


/// What a status query reports of a permission.
#[derive(Clone, Debug)]
pub struct PermissionStatusResponse {
    pub permission_id: u128,
    pub status: PermissionStatus,
    pub remaining_amount: u128,
    pub remaining_seconds: u128,
    pub used_seconds: u128,
    pub expires_at: i64,
}

impl SpendingPermission {
    /// A field-by-field copy.
    pub fn snapshot(&self) -> (r: SpendingPermission)
        ensures
            r == *self,
    {
        SpendingPermission {
            id: self.id,
            user_wallet_address: self.user_wallet_address.clone(),
            approved_amount: self.approved_amount,
            remaining_amount: self.remaining_amount,
            rate_per_hour: self.rate_per_hour,
            max_streaming_seconds: self.max_streaming_seconds,
            used_streaming_seconds: self.used_streaming_seconds,
            status: self.status,
            expires_at: self.expires_at,
            created_at: self.created_at,
            updated_at: self.updated_at,
        }
    }

    /// A new `Pending` permission for `requested_zatoshi` at `rate_per_hour`
    /// zatoshi per hour, created at `now` and expiring `duration_days` later.
    ///
    /// Fails with `Validation` when the amount or the rate is zero, when the
    /// duration is outside 1..=365 days, or when the deadline is past the range
    /// of an instant.
    pub fn new_pending(
        id: u128,
        user_wallet_address: String,
        requested_zatoshi: u64,
        rate_per_hour: u64,
        duration_days: i64,
        now: i64,
    ) -> (r: Result<SpendingPermission, BillingError>)
        ensures
            (requested_zatoshi > 0 && rate_per_hour > 0 && 1 <= duration_days <= MAX_DURATION_DAYS
                && now + duration_days * MILLIS_PER_DAY <= i64::MAX) <==> r is Ok,
            r is Err ==> r == Err::<SpendingPermission, BillingError>(BillingError::Validation),
            r matches Ok(p) ==> {
                &&& p.wf()
                &&& p.id == id
                &&& p.user_wallet_address@ == user_wallet_address@
                &&& p.approved_amount == requested_zatoshi * UNITS_PER_ZATOSHI
                &&& p.remaining_amount == p.approved_amount
                &&& p.used_streaming_seconds == 0
                &&& p.rate_per_hour == rate_per_hour
                &&& p.status is Pending
                &&& p.expires_at == now + duration_days * MILLIS_PER_DAY
                &&& p.created_at == now
                &&& p.updated_at == now
            },
    {
        if requested_zatoshi == 0 || rate_per_hour == 0 || duration_days < 1 || duration_days
            > MAX_DURATION_DAYS {
            return Err(BillingError::Validation);
        }
        let span: i64 = duration_days * MILLIS_PER_DAY;
        if now > i64::MAX - span {
            return Err(BillingError::Validation);
        }
        let approved: u128 = requested_zatoshi as u128 * UNITS_PER_ZATOSHI;
        Ok(SpendingPermission {
            id,
            user_wallet_address,
            approved_amount: approved,
            remaining_amount: approved,
            rate_per_hour,
            max_streaming_seconds: approved / rate_per_hour as u128,
            used_streaming_seconds: 0,
            status: PermissionStatus::Pending,
            expires_at: now + span,
            created_at: now,
            updated_at: now,
        })
    }

    /// Activates a pending permission once `received_zatoshi`, verified as
    /// coming from its wallet, covers the approved amount.
    ///
    /// Any other status fails with `InvalidState` and a short payment with
    /// `PaymentShort`; neither changes the permission.
    pub fn activate_with_payment(&mut self, received_zatoshi: u128, now: i64) -> (r: Result<(), BillingError>)
        requires
            old(self).wf(),
        ensures
            final(self).wf(),
            activate_post(*old(self), *final(self), received_zatoshi, now, r),
    {
        if self.status != PermissionStatus::Pending {
            return Err(BillingError::InvalidState);
        }
        let expected: u128 = self.approved_amount / UNITS_PER_ZATOSHI;
        // received * 3600 >= approved  <==>  received >= ceil(approved / 3600)
        let covered = if received_zatoshi > expected {
            true
        } else {
            received_zatoshi * UNITS_PER_ZATOSHI >= self.approved_amount
        };
        if !covered {
            return Err(BillingError::PaymentShort { expected, got: received_zatoshi });
        }
        self.status = PermissionStatus::Active;
        self.updated_at = now;
        Ok(())
    }

    /// Revokes a permission that is not yet terminal; a terminal one fails
    /// with `InvalidState` and stays as it is.
    pub fn revoke(&mut self, now: i64) -> (r: Result<(), BillingError>)
        requires
            old(self).wf(),
        ensures
            final(self).wf(),
            revoke_post(*old(self), *final(self), now, r),
    {
        if self.status.is_terminal() {
            return Err(BillingError::InvalidState);
        }
        self.status = PermissionStatus::Revoked;
        self.updated_at = now;
        Ok(())
    }

    /// The sweep of one permission: an active one whose deadline lies before
    /// `now` turns `Expired`. Returns whether it did.
    pub fn expire_if_past(&mut self, now: i64) -> (r: bool)
        requires
            old(self).wf(),
        ensures
            final(self).wf(),
            r == (old(self).status is Active && old(self).expires_at < now),
            r ==> final(self).restatus_of(old(self), PermissionStatus::Expired, now),
            !r ==> *final(self) == *old(self),
    {
        if self.status == PermissionStatus::Active && self.expires_at < now {
            self.status = PermissionStatus::Expired;
            self.updated_at = now;
            true
        } else {
            false
        }
    }

    /// Whole seconds of streaming that what is left still pays for.
    pub fn remaining_seconds(&self) -> (r: u128)
        requires
            self.wf(),
        ensures
            r == self.remaining_amount / (self.rate_per_hour as u128),
    {
        self.remaining_amount / self.rate_per_hour as u128
    }

    /// The status report of this permission.
    pub fn status_response(&self) -> (r: PermissionStatusResponse)
        requires
            self.wf(),
        ensures
            r.permission_id == self.id,
            r.status == self.status,
            r.remaining_amount == self.remaining_amount,
            r.remaining_seconds == self.remaining_amount / (self.rate_per_hour as u128),
            r.used_seconds == self.used_streaming_seconds,
            r.expires_at == self.expires_at,
    {
        PermissionStatusResponse {
            permission_id: self.id,
            status: self.status,
            remaining_amount: self.remaining_amount,
            remaining_seconds: self.remaining_seconds(),
            used_seconds: self.used_streaming_seconds,
            expires_at: self.expires_at,
        }
    }
}

} // verus!
