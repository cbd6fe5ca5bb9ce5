use vstd::prelude::*;

use crate::error::BillingError;
use crate::permission::{
    activate_post, deduct_post, revoke_post, PermissionStatus, PermissionStatusResponse,
    SpendingPermission, MAX_DURATION_DAYS, MILLIS_PER_DAY, UNITS_PER_ZATOSHI,
};

verus! {

/// Relies on `uuid::Uuid::new_v4`, a random version-4 identifier, and
/// `Uuid::as_u128`, its 128 bits. Nothing is promised of the value.
#[verifier::external_body]
pub(crate) fn fresh_uuid() -> (r: u128) {
    uuid::Uuid::new_v4().as_u128()
}

/// A request for a new permission: the amount in zatoshi, the rate in zatoshi
/// per hour.
#[derive(Clone, Debug)]
pub struct CreatePermissionRequest {
    pub user_wallet_address: String,
    pub requested_amount: u64,
    pub rate_per_hour: u64,
    pub duration_days: i64,
}

/// A request to check a permission's funding; it may name the transaction
/// that paid it.
#[derive(Clone, Debug)]
pub struct VerifyPermissionRequest {
    pub transaction_id: Option<String>,
}

/// What the creator of a permission is told: where to pay, and how much
/// (in zatoshi).
#[derive(Clone, Debug)]
pub struct CreatePermissionResponse {
    pub permission_id: u128,
    pub max_streaming_seconds: u128,
    pub expires_at: i64,
    pub payment_address: String,
    pub amount_to_pay: u64,
}

/// The request passes the checks of `SpendingPermission::new_pending` at `now`.
pub open spec fn request_valid(request: CreatePermissionRequest, now: i64) -> bool {
    request.requested_amount > 0 && request.rate_per_hour > 0 && 1 <= request.duration_days
        <= MAX_DURATION_DAYS && now + request.duration_days * MILLIS_PER_DAY <= i64::MAX
}

/// `p` is the row, and `resp` the answer, that `request` creates under `id` at
/// `now`, with funding asked at `pay_to`.
pub open spec fn created_row(
    p: SpendingPermission,
    resp: CreatePermissionResponse,
    request: CreatePermissionRequest,
    id: u128,
    now: i64,
    pay_to: Seq<char>,
) -> bool {
    &&& p.wf()
    &&& p.id == id
    &&& p.user_wallet_address@ == request.user_wallet_address@
    &&& p.approved_amount == request.requested_amount * UNITS_PER_ZATOSHI
    &&& p.remaining_amount == p.approved_amount
    &&& p.used_streaming_seconds == 0
    &&& p.rate_per_hour == request.rate_per_hour
    &&& p.status is Pending
    &&& p.expires_at == now + request.duration_days * MILLIS_PER_DAY
    &&& p.created_at == now
    &&& p.updated_at == now
    &&& resp.permission_id == id
    &&& resp.max_streaming_seconds == p.max_streaming_seconds
    &&& resp.max_streaming_seconds == p.approved_amount / (p.rate_per_hour as u128)
    &&& resp.expires_at == p.expires_at
    &&& resp.payment_address@ == pay_to
    &&& resp.amount_to_pay == request.requested_amount
}

/// `p` is pending and `received_zatoshi` covers it.
pub open spec fn activation_due(p: SpendingPermission, received_zatoshi: u128) -> bool {
    p.status is Pending && received_zatoshi * UNITS_PER_ZATOSHI >= p.approved_amount
}

pub open spec fn has_id(perms: Seq<SpendingPermission>, id: u128) -> bool {
    exists|i: int| 0 <= i < perms.len() && #[trigger] perms[i].id == id
}

/// Permission `i` is active for `wallet` and its deadline lies after `now`.
pub open spec fn live_for(perms: Seq<SpendingPermission>, i: int, wallet: Seq<char>, now: i64) -> bool {
    &&& 0 <= i < perms.len()
    &&& perms[i].user_wallet_address@ == wallet
    &&& perms[i].status is Active
    &&& perms[i].expires_at > now
}

/// Forgets the value of a result.
pub open spec fn outcome<T>(r: Result<T, BillingError>) -> Result<(), BillingError> {
    match r {
        Ok(_) => Ok(()),
        Err(e) => Err(e),
    }
}

/// From `old` to `new` no permission was lost or renamed and no terminal one
/// changed in any way.
pub open spec fn permissions_evolve(old: Seq<SpendingPermission>, new: Seq<SpendingPermission>) -> bool {
    &&& old.len() <= new.len()
    &&& forall|i: int|
        0 <= i < old.len() ==> {
            &&& #[trigger] new[i].id == old[i].id
            &&& new[i].user_wallet_address@ == old[i].user_wallet_address@
            &&& (old[i].status.spec_is_terminal() ==> new[i].unchanged_from(&old[i]))
        }
}

/// `new` is `old` with entry `i` replaced.
pub open spec fn only_changed_at(old: Seq<SpendingPermission>, new: Seq<SpendingPermission>, i: int) -> bool {
    &&& new.len() == old.len()
    &&& forall|j: int| 0 <= j < old.len() && j != i ==> #[trigger] new[j] == old[j]
}

/// The permission manager: the table of spending permissions and the
/// custodial address that funds them.
pub struct ZcashService {
    pub service_wallet_address: String,
    pub permissions: Vec<SpendingPermission>,
}

impl ZcashService {
    /// Every permission is well formed, identifiers are unique, and a wallet
    /// has at most one active permission.
    pub open spec fn wf(&self) -> bool {
        let perms = self.permissions@;
        &&& forall|i: int| 0 <= i < perms.len() ==> #[trigger] perms[i].wf()
        &&& forall|i: int, j: int|
            0 <= i < perms.len() && 0 <= j < perms.len() && i != j ==> #[trigger] perms[i].id
                != #[trigger] perms[j].id
        &&& forall|i: int, j: int|
            0 <= i < perms.len() && 0 <= j < perms.len() && i != j && (#[trigger] perms[i]).status is Active
                && (#[trigger] perms[j]).status is Active ==> perms[i].user_wallet_address@
                != perms[j].user_wallet_address@
    }

    /// A manager with no permissions that asks for funding at
    /// `service_wallet_address`.
    pub fn new(service_wallet_address: String) -> (r: ZcashService)
        ensures
            r.wf(),
            r.permissions@.len() == 0,
            r.service_wallet_address@ == service_wallet_address@,
    {
        ZcashService { service_wallet_address, permissions: Vec::new() }
    }

    /// The position of the permission `id`.
    pub fn find_permission(&self, id: u128) -> (r: Option<usize>)
        ensures
            r matches Some(i) ==> i < self.permissions@.len() && self.permissions@[i as int].id == id,
            r is None <==> !has_id(self.permissions@, id),
    {
        let mut i: usize = 0;
        while i < self.permissions.len()
            invariant
                i <= self.permissions@.len(),
                forall|j: int| 0 <= j < i ==> #[trigger] self.permissions@[j].id != id,
            decreases self.permissions@.len() - i,
        {
            if self.permissions[i].id == id {
                return Some(i);
            }
            i = i + 1;
        }
        None
    }

    /// The position of an active permission of `wallet`, whatever its deadline.
    pub fn find_active_for_wallet(&self, wallet: &String) -> (r: Option<usize>)
        ensures
            r matches Some(i) ==> i < self.permissions@.len() && self.permissions@[i as int].status is Active
                && self.permissions@[i as int].user_wallet_address@ == wallet@,
            r is None ==> forall|j: int|
                0 <= j < self.permissions@.len() && #[trigger] self.permissions@[j].status is Active
                    ==> self.permissions@[j].user_wallet_address@ != wallet@,
    {
        let mut i: usize = 0;
        while i < self.permissions.len()
            invariant
                i <= self.permissions@.len(),
                forall|j: int|
                    0 <= j < i && #[trigger] self.permissions@[j].status is Active
                        ==> self.permissions@[j].user_wallet_address@ != wallet@,
            decreases self.permissions@.len() - i,
        {
            if self.permissions[i].status == PermissionStatus::Active
                && self.permissions[i].user_wallet_address == *wallet {
                return Some(i);
            }
            i = i + 1;
        }
        None
    }

    /// Records a new `Pending` permission under `id`, created at `now`.
    ///
    /// Fails with `Validation` as `SpendingPermission::new_pending` does, and
    /// otherwise with `StoreError` when `id` is taken.
    pub fn create_spending_permission_with_id(
        &mut self,
        request: CreatePermissionRequest,
        id: u128,
        now: i64,
    ) -> (r: Result<CreatePermissionResponse, BillingError>)
        requires
            old(self).wf(),
        ensures
            final(self).wf(),
            permissions_evolve(old(self).permissions@, final(self).permissions@),
            final(self).service_wallet_address == old(self).service_wallet_address,
            !request_valid(request, now) ==> r == Err::<CreatePermissionResponse, BillingError>(
                BillingError::Validation,
            ),
            request_valid(request, now) && has_id(old(self).permissions@, id) ==> r == Err::<
                CreatePermissionResponse,
                BillingError,
            >(BillingError::StoreError),
            request_valid(request, now) && !has_id(old(self).permissions@, id) ==> r is Ok,
            r is Err ==> final(self).permissions@ == old(self).permissions@,
            r matches Ok(resp) ==> {
                let p = final(self).permissions@.last();
                &&& final(self).permissions@ == old(self).permissions@.push(p)
                &&& created_row(p, resp, request, id, now, old(self).service_wallet_address@)
            },
    {
        let amount = request.requested_amount;
        let p = SpendingPermission::new_pending(
            id,
            request.user_wallet_address,
            amount,
            request.rate_per_hour,
            request.duration_days,
            now,
        )?;
        if self.find_permission(id).is_some() {
            return Err(BillingError::StoreError);
        }
        let resp = CreatePermissionResponse {
            permission_id: id,
            max_streaming_seconds: p.max_streaming_seconds,
            expires_at: p.expires_at,
            payment_address: self.service_wallet_address.clone(),
            amount_to_pay: amount,
        };
        self.permissions.push(p);
        Ok(resp)
    }

    /// Records a new `Pending` permission under a fresh random identifier.
    pub fn create_spending_permission(&mut self, request: CreatePermissionRequest, now: i64) -> (r: Result<
        CreatePermissionResponse,
        BillingError,
    >)
        requires
            old(self).wf(),
        ensures
            final(self).wf(),
            permissions_evolve(old(self).permissions@, final(self).permissions@),
            final(self).service_wallet_address == old(self).service_wallet_address,
            !request_valid(request, now) ==> r == Err::<CreatePermissionResponse, BillingError>(
                BillingError::Validation,
            ),
            request_valid(request, now) && old(self).permissions@.len() == 0 ==> r is Ok,
            r is Err ==> r == Err::<CreatePermissionResponse, BillingError>(BillingError::Validation)
                || r == Err::<CreatePermissionResponse, BillingError>(BillingError::StoreError),
            r is Err ==> final(self).permissions@ == old(self).permissions@,
            r matches Ok(resp) ==> {
                let p = final(self).permissions@.last();
                &&& final(self).permissions@ == old(self).permissions@.push(p)
                &&& created_row(p, resp, request, resp.permission_id, now, old(self).service_wallet_address@)
            },
    {
        let id = fresh_uuid();
        self.create_spending_permission_with_id(request, id, now)
    }

    /// A copy of the permission `id`, or `NotFound`.
    pub fn get_permission(&self, id: u128) -> (r: Result<SpendingPermission, BillingError>)
        ensures
            r is Err <==> !has_id(self.permissions@, id),
            r is Err ==> r == Err::<SpendingPermission, BillingError>(BillingError::NotFound),
            r matches Ok(p) ==> exists|i: int|
                0 <= i < self.permissions@.len() && #[trigger] self.permissions@[i] == p && p.id == id,
    {
        match self.find_permission(id) {
            Some(i) => Ok(self.permissions[i].snapshot()),
            None => Err(BillingError::NotFound),
        }
    }

    /// Activates the pending permission `id` once `received_zatoshi`, verified
    /// as sent from its wallet to the custodial address, covers it.
    ///
    /// Fails with `NotFound`, or as `activate_post` says, with nothing changed.
    /// A wallet keeps at most one active permission: when another permission of
    /// the wallet is live at `now` the call fails with `StoreError`, with nothing
    /// changed; an active one whose deadline has come is expired first.
    pub fn verify_and_activate_permission(&mut self, id: u128, received_zatoshi: u128, now: i64) -> (r:
        Result<SpendingPermission, BillingError>)
        requires
            old(self).wf(),
        ensures
            final(self).wf(),
            permissions_evolve(old(self).permissions@, final(self).permissions@),
            final(self).service_wallet_address == old(self).service_wallet_address,
            final(self).permissions@.len() == old(self).permissions@.len(),
            !has_id(old(self).permissions@, id) ==> r == Err::<SpendingPermission, BillingError>(
                BillingError::NotFound,
            ),
            r is Err ==> final(self).permissions@ == old(self).permissions@,
            forall|i: int|
                0 <= i < old(self).permissions@.len() && #[trigger] old(self).permissions@[i].id == id
                    ==> {
                    let p = old(self).permissions@[i];
                    let q = final(self).permissions@[i];
                    let conflict = exists|j: int|
                        j != i && #[trigger] live_for(
                            old(self).permissions@,
                            j,
                            p.user_wallet_address@,
                            now,
                        );
                    &&& r != Err::<SpendingPermission, BillingError>(BillingError::StoreError)
                        ==> activate_post(p, q, received_zatoshi, now, outcome(r))
                    &&& r == Err::<SpendingPermission, BillingError>(BillingError::StoreError) <==> (
                    activation_due(p, received_zatoshi) && conflict)
                    &&& r matches Ok(v) ==> v == q && forall|j: int|
                        0 <= j < old(self).permissions@.len() && j != i ==> {
                            let o = #[trigger] old(self).permissions@[j];
                            let n = final(self).permissions@[j];
                            if o.status is Active && o.user_wallet_address@ == p.user_wallet_address@ {
                                n.restatus_of(&o, PermissionStatus::Expired, now)
                            } else {
                                n == o
                            }
                        }
                },
    {
        let i = match self.find_permission(id) {
            Some(i) => i,
            None => return Err(BillingError::NotFound),
        };
        let mut p = self.permissions[i].snapshot();
        p.activate_with_payment(received_zatoshi, now)?;
        let wallet = p.user_wallet_address.clone();
        let ghost before = self.permissions@;
        let found = self.find_active_for_wallet(&wallet);
        proof {
            // every active permission of this wallet is the one found
            assert forall|k: int|
                0 <= k < before.len() && (#[trigger] before[k]).status is Active
                    && before[k].user_wallet_address@ == wallet@ implies found == Some(k as usize) by {
                if let Some(j) = found {
                    if k != j as int {
                        assert(before[k].user_wallet_address@ != before[j as int].user_wallet_address@);
                    }
                }
            }
        }
        match found {
            Some(j) => {
                if self.permissions[j].expires_at > now {
                    assert(live_for(old(self).permissions@, j as int, wallet@, now));
                    return Err(BillingError::StoreError);
                }
                let mut other = self.permissions[j].snapshot();
                other.status = PermissionStatus::Expired;
                other.updated_at = now;
                self.permissions[j] = other;
            },
            None => {},
        }
        self.permissions[i] = p.snapshot();
        proof {
            let after = self.permissions@;
            assert forall|a: int, b: int|
                0 <= a < after.len() && 0 <= b < after.len() && a != b && (#[trigger] after[a]).status is Active
                    && (#[trigger] after[b]).status is Active implies after[a].user_wallet_address@
                != after[b].user_wallet_address@ by {
                if a == i as int {
                    assert(before[b].status is Active);
                } else if b == i as int {
                    assert(before[a].status is Active);
                } else {
                    assert(before[a].status is Active && before[b].status is Active);
                }
            }
            assert forall|a: int| 0 <= a < after.len() implies #[trigger] after[a].wf() by {
                assert(before[a].wf());
            }
            assert forall|a: int, b: int|
                0 <= a < after.len() && 0 <= b < after.len() && a != b implies #[trigger] after[a].id
                != #[trigger] after[b].id by {
                assert(before[a].id != before[b].id);
            }
        }
        Ok(p)
    }
}


/// Replacing one permission by a well-formed one with the same identifier and
/// wallet, active only if it was, keeps the table well formed.
proof fn lemma_replace_keeps_wf(svc_old: &ZcashService, svc_new: &ZcashService, i: int)
    requires
        svc_old.wf(),
        0 <= i < svc_old.permissions@.len(),
        only_changed_at(svc_old.permissions@, svc_new.permissions@, i),
        svc_new.permissions@[i].wf(),
        svc_new.permissions@[i].id == svc_old.permissions@[i].id,
        svc_new.permissions@[i].user_wallet_address@ == svc_old.permissions@[i].user_wallet_address@,
        svc_new.permissions@[i].status is Active ==> svc_old.permissions@[i].status is Active,
    ensures
        svc_new.wf(),
{
    let before = svc_old.permissions@;
    let after = svc_new.permissions@;
    assert forall|a: int| 0 <= a < after.len() implies #[trigger] after[a].wf() by {
        if a != i {
            assert(before[a].wf());
        }
    }
    assert forall|a: int, b: int|
        0 <= a < after.len() && 0 <= b < after.len() && a != b implies #[trigger] after[a].id
        != #[trigger] after[b].id by {
        assert(before[a].id != before[b].id);
    }
    assert forall|a: int, b: int|
        0 <= a < after.len() && 0 <= b < after.len() && a != b && (#[trigger] after[a]).status is Active
            && (#[trigger] after[b]).status is Active implies after[a].user_wallet_address@
        != after[b].user_wallet_address@ by {
        assert(before[a].status is Active && before[b].status is Active);
    }
}

impl ZcashService {
    /// Deducts `seconds` of streaming at `now` from the permission `id`, as
    /// `deduct_post` describes, and returns the permission as it now stands.
    pub fn deduct_streaming_time(&mut self, id: u128, seconds: u64, now: i64) -> (r: Result<
        SpendingPermission,
        BillingError,
    >)
        requires
            old(self).wf(),
        ensures
            final(self).wf(),
            permissions_evolve(old(self).permissions@, final(self).permissions@),
            final(self).service_wallet_address == old(self).service_wallet_address,
            !has_id(old(self).permissions@, id) ==> r == Err::<SpendingPermission, BillingError>(
                BillingError::NotFound,
            ) && final(self).permissions@ == old(self).permissions@,
            forall|i: int|
                0 <= i < old(self).permissions@.len() && #[trigger] old(self).permissions@[i].id == id
                    ==> {
                    &&& only_changed_at(old(self).permissions@, final(self).permissions@, i)
                    &&& deduct_post(
                        old(self).permissions@[i],
                        final(self).permissions@[i],
                        seconds,
                        now,
                        outcome(r),
                    )
                    &&& r matches Ok(v) ==> v == final(self).permissions@[i]
                },
    {
        let i = match self.find_permission(id) {
            Some(i) => i,
            None => return Err(BillingError::NotFound),
        };
        let ghost before = *self;
        let mut p = self.permissions[i].snapshot();
        let r = p.deduct_streaming_time(seconds, now);
        self.permissions[i] = p.snapshot();
        proof {
            lemma_replace_keeps_wf(&before, self, i as int);
            assert forall|k: int| 0 <= k < before.permissions@.len() && #[trigger] before.permissions@[k].id == id
                implies k == i as int by {
                if k != i as int {
                    assert(before.permissions@[k].id != before.permissions@[i as int].id);
                }
            }
        }
        match r {
            Ok(()) => Ok(p),
            Err(e) => Err(e),
        }
    }

    /// Revokes the permission `id` at `now`, as `revoke_post` describes, and
    /// returns it as it now stands.
    pub fn revoke_permission(&mut self, id: u128, now: i64) -> (r: Result<SpendingPermission, BillingError>)
        requires
            old(self).wf(),
        ensures
            final(self).wf(),
            permissions_evolve(old(self).permissions@, final(self).permissions@),
            final(self).service_wallet_address == old(self).service_wallet_address,
            !has_id(old(self).permissions@, id) ==> r == Err::<SpendingPermission, BillingError>(
                BillingError::NotFound,
            ) && final(self).permissions@ == old(self).permissions@,
            forall|i: int|
                0 <= i < old(self).permissions@.len() && #[trigger] old(self).permissions@[i].id == id
                    ==> {
                    &&& only_changed_at(old(self).permissions@, final(self).permissions@, i)
                    &&& revoke_post(old(self).permissions@[i], final(self).permissions@[i], now, outcome(r))
                    &&& r matches Ok(v) ==> v == final(self).permissions@[i]
                },
    {
        let i = match self.find_permission(id) {
            Some(i) => i,
            None => return Err(BillingError::NotFound),
        };
        let ghost before = *self;
        let mut p = self.permissions[i].snapshot();
        let r = p.revoke(now);
        self.permissions[i] = p.snapshot();
        proof {
            lemma_replace_keeps_wf(&before, self, i as int);
            assert forall|k: int| 0 <= k < before.permissions@.len() && #[trigger] before.permissions@[k].id == id
                implies k == i as int by {
                if k != i as int {
                    assert(before.permissions@[k].id != before.permissions@[i as int].id);
                }
            }
        }
        match r {
            Ok(()) => Ok(p),
            Err(e) => Err(e),
        }
    }

    /// The status report of the permission `id`, or `NotFound`.
    pub fn get_permission_status(&self, id: u128) -> (r: Result<PermissionStatusResponse, BillingError>)
        requires
            self.wf(),
        ensures
            r is Err <==> !has_id(self.permissions@, id),
            r is Err ==> r == Err::<PermissionStatusResponse, BillingError>(BillingError::NotFound),
            forall|i: int|
                0 <= i < self.permissions@.len() && #[trigger] self.permissions@[i].id == id ==> {
                    let p = self.permissions@[i];
                    r matches Ok(s) && s.permission_id == id && s.status == p.status
                        && s.remaining_amount == p.remaining_amount && s.remaining_seconds
                        == p.remaining_amount / (p.rate_per_hour as u128) && s.used_seconds
                        == p.used_streaming_seconds && s.expires_at == p.expires_at
                },
    {
        match self.find_permission(id) {
            Some(i) => {
                proof {
                    assert forall|k: int| 0 <= k < self.permissions@.len() && #[trigger] self.permissions@[k].id == id
                        implies k == i as int by {
                        if k != i as int {
                            assert(self.permissions@[k].id != self.permissions@[i as int].id);
                        }
                    }
                }
                Ok(self.permissions[i].status_response())
            },
            None => Err(BillingError::NotFound),
        }
    }

    /// The permission of `wallet` that is active with its deadline after `now`;
    /// there is at most one.
    pub fn get_active_permission_by_wallet(&self, wallet: &String, now: i64) -> (r: Option<SpendingPermission>)
        requires
            self.wf(),
        ensures
            r is None <==> !exists|i: int| #[trigger] live_for(self.permissions@, i, wallet@, now),
            r matches Some(p) ==> exists|i: int|
                #[trigger] live_for(self.permissions@, i, wallet@, now) && self.permissions@[i] == p,
    {
        match self.find_active_for_wallet(wallet) {
            Some(i) => {
                if self.permissions[i].expires_at > now {
                    assert(live_for(self.permissions@, i as int, wallet@, now));
                    Some(self.permissions[i].snapshot())
                } else {
                    proof {
                        assert forall|k: int| !#[trigger] live_for(self.permissions@, k, wallet@, now) by {
                            if live_for(self.permissions@, k, wallet@, now) && k != i as int {
                                assert(self.permissions@[k].user_wallet_address@
                                    != self.permissions@[i as int].user_wallet_address@);
                            }
                        }
                    }
                    None
                }
            },
            None => {
                proof {
                    assert forall|k: int| !#[trigger] live_for(self.permissions@, k, wallet@, now) by {
                        if live_for(self.permissions@, k, wallet@, now) {
                            assert(self.permissions@[k].status is Active);
                        }
                    }
                }
                None
            },
        }
    }

    /// The expiry sweep: every active permission whose deadline lies before
    /// `now` turns `Expired`. Returns how many did.
    pub fn check_expired_permissions(&mut self, now: i64) -> (r: usize)
        requires
            old(self).wf(),
        ensures
            final(self).wf(),
            permissions_evolve(old(self).permissions@, final(self).permissions@),
            final(self).service_wallet_address == old(self).service_wallet_address,
            final(self).permissions@.len() == old(self).permissions@.len(),
            r <= old(self).permissions@.len(),
            forall|i: int|
                0 <= i < old(self).permissions@.len() ==> {
                    let o = #[trigger] old(self).permissions@[i];
                    let n = final(self).permissions@[i];
                    if o.status is Active && o.expires_at < now {
                        n.restatus_of(&o, PermissionStatus::Expired, now)
                    } else {
                        n == o
                    }
                },
    {
        let ghost start = self.permissions@;
        let mut count: usize = 0;
        let mut i: usize = 0;
        while i < self.permissions.len()
            invariant
                self.wf(),
                i <= self.permissions@.len(),
                self.permissions@.len() == start.len(),
                count <= i,
                self.service_wallet_address == old(self).service_wallet_address,
                start == old(self).permissions@,
                forall|k: int|
                    0 <= k < start.len() ==> {
                        let o = #[trigger] start[k];
                        let n = self.permissions@[k];
                        if k < i && o.status is Active && o.expires_at < now {
                            n.restatus_of(&o, PermissionStatus::Expired, now)
                        } else {
                            n == o
                        }
                    },
            decreases start.len() - i,
        {
            let ghost before = *self;
            let mut p = self.permissions[i].snapshot();
            assert(p.wf());
            if p.expire_if_past(now) {
                count = count + 1;
            }
            self.permissions[i] = p;
            proof {
                lemma_replace_keeps_wf(&before, self, i as int);
            }
            i = i + 1;
        }
        count
    }
}


/// Observations only move forward: if the table evolves from `a` to `b` and
/// from `b` to `c`, it evolves from `a` to `c`. In particular a terminal
/// permission shows the same amounts in every later observation.
pub proof fn lemma_permissions_evolve_trans(
    a: Seq<SpendingPermission>,
    b: Seq<SpendingPermission>,
    c: Seq<SpendingPermission>,
)
    requires
        permissions_evolve(a, b),
        permissions_evolve(b, c),
    ensures
        permissions_evolve(a, c),
{
    assert forall|i: int| 0 <= i < a.len() implies {
        &&& #[trigger] c[i].id == a[i].id
        &&& c[i].user_wallet_address@ == a[i].user_wallet_address@
        &&& (a[i].status.spec_is_terminal() ==> c[i].unchanged_from(&a[i]))
    } by {
        assert(b[i].id == a[i].id);
        assert(c[i].id == b[i].id);
    }
}

} // verus!
