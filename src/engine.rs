use vstd::prelude::*;

use crate::error::BillingError;
use crate::permission::{deduct_post, SpendingPermission};
use crate::service::{
    fresh_uuid, has_id, only_changed_at, lemma_permissions_evolve_trans, live_for, outcome, permissions_evolve,
    ZcashService,
};
use crate::session::{
    check_vendor, elapsed_seconds, elapsed_spec, generate_session_code, is_session_code,
    is_vendor_wallet, BillingTransaction, CreateSessionResponse, SessionStatus, StreamingSession,
    TransactionStatus, VendorInfo, MAX_VENDOR_RATE,
};

verus! {

/// How many fresh codes session creation draws before it gives up.
pub const CODE_ATTEMPTS: usize = 8;

/// The association of a session with the permission that pays for it.
#[derive(Clone, Copy, Debug, PartialEq, Eq, Structural)]
pub struct SessionPermissionLink {
    pub session_id: u128,
    pub permission_id: u128,
}

/// A debit that the scheduler hands to the on-chain fallback biller, for a
/// session that has no permission. The amount is in ledger units.
#[derive(Clone, Debug)]
pub struct FallbackCharge {
    pub session_id: u128,
    pub user_wallet_address: String,
    pub vendor_wallet_address: String,
    pub amount: u128,
    pub duration_minutes: i64,
}

/// What a wallet can still stream, as far as its live permission says.
#[derive(Clone, Debug)]
pub struct StreamingCapacity {
    pub has_permission: bool,
    pub remaining_balance: u128,
    pub remaining_seconds: u128,
    pub rate_per_hour: u64,
    pub expires_at: Option<i64>,
}

/// The sum of the amounts of the transactions of session `sid`.
pub open spec fn billed_sum(txs: Seq<BillingTransaction>, sid: u128) -> int
    decreases txs.len(),
{
    if txs.len() == 0 {
        0
    } else {
        billed_sum(txs.drop_last(), sid) + if txs.last().session_id == sid {
            txs.last().amount as int
        } else {
            0
        }
    }
}

pub proof fn lemma_billed_sum_push(txs: Seq<BillingTransaction>, t: BillingTransaction, sid: u128)
    ensures
        billed_sum(txs.push(t), sid) == billed_sum(txs, sid) + if t.session_id == sid {
            t.amount as int
        } else {
            0
        },
{
    assert(txs.push(t).drop_last() =~= txs);
}

pub proof fn lemma_billed_sum_none(txs: Seq<BillingTransaction>, sid: u128)
    requires
        forall|k: int| 0 <= k < txs.len() ==> #[trigger] txs[k].session_id != sid,
    ensures
        billed_sum(txs, sid) == 0,
    decreases txs.len(),
{
    if txs.len() > 0 {
        lemma_billed_sum_none(txs.drop_last(), sid);
    }
}

pub open spec fn has_session(sessions: Seq<StreamingSession>, sid: u128) -> bool {
    exists|i: int| 0 <= i < sessions.len() && #[trigger] sessions[i].id == sid
}

pub open spec fn has_code(sessions: Seq<StreamingSession>, code: Seq<char>) -> bool {
    exists|i: int| 0 <= i < sessions.len() && #[trigger] sessions[i].session_code@ == code
}

pub open spec fn has_link(links: Seq<SessionPermissionLink>, sid: u128) -> bool {
    exists|i: int| 0 <= i < links.len() && #[trigger] links[i].session_id == sid
}

/// The session is due for a scheduler debit at `now`.
pub open spec fn is_due(s: StreamingSession, now: i64, interval: u64) -> bool {
    s.status is Active && elapsed_spec(s.last_billed_time, now) >= interval
}

/// The session engine: sessions, the debits recorded against them, and the
/// links to the permissions that pay for them.
pub struct IntegratedBillingEngine {
    pub zcash_service: ZcashService,
    pub sessions: Vec<StreamingSession>,
    pub transactions: Vec<BillingTransaction>,
    pub links: Vec<SessionPermissionLink>,
    pub billing_interval_seconds: u64,
}

impl IntegratedBillingEngine {
    /// The permission table is well formed; session identifiers and codes are
    /// unique; every transaction belongs to a session and every session's total
    /// is the sum of its transactions; a session has at most one link.
    pub open spec fn wf(&self) -> bool {
        let ss = self.sessions@;
        let txs = self.transactions@;
        let ls = self.links@;
        &&& self.zcash_service.wf()
        &&& forall|i: int, j: int|
            0 <= i < ss.len() && 0 <= j < ss.len() && i != j ==> #[trigger] ss[i].id != #[trigger] ss[j].id
                && ss[i].session_code@ != ss[j].session_code@
        &&& forall|k: int| 0 <= k < txs.len() ==> has_session(ss, #[trigger] txs[k].session_id)
        &&& forall|i: int| 0 <= i < ss.len() ==> #[trigger] ss[i].total_amount_billed == billed_sum(txs, ss[i].id)
        &&& forall|a: int, b: int|
            0 <= a < ls.len() && 0 <= b < ls.len() && a != b ==> #[trigger] ls[a].session_id
                != #[trigger] ls[b].session_id
        &&& forall|a: int| 0 <= a < ls.len() ==> has_session(ss, #[trigger] ls[a].session_id)
    }

    /// An engine with no sessions over `zcash_service`, billing every
    /// `billing_interval_seconds`.
    pub fn new(zcash_service: ZcashService, billing_interval_seconds: u64) -> (r: IntegratedBillingEngine)
        requires
            zcash_service.wf(),
        ensures
            r.wf(),
            r.zcash_service == zcash_service,
            r.sessions@.len() == 0,
            r.transactions@.len() == 0,
            r.links@.len() == 0,
            r.billing_interval_seconds == billing_interval_seconds,
    {
        IntegratedBillingEngine {
            zcash_service,
            sessions: Vec::new(),
            transactions: Vec::new(),
            links: Vec::new(),
            billing_interval_seconds,
        }
    }

    /// The position of the session with code `code`.
    pub fn find_session_by_code(&self, code: &String) -> (r: Option<usize>)
        ensures
            r matches Some(i) ==> i < self.sessions@.len() && self.sessions@[i as int].session_code@ == code@,
            r is None <==> !has_code(self.sessions@, code@),
    {
        let mut i: usize = 0;
        while i < self.sessions.len()
            invariant
                i <= self.sessions@.len(),
                forall|j: int| 0 <= j < i ==> #[trigger] self.sessions@[j].session_code@ != code@,
            decreases self.sessions@.len() - i,
        {
            if self.sessions[i].session_code == *code {
                return Some(i);
            }
            i = i + 1;
        }
        None
    }

    /// The position of the session `id`.
    pub fn find_session(&self, id: u128) -> (r: Option<usize>)
        ensures
            r matches Some(i) ==> i < self.sessions@.len() && self.sessions@[i as int].id == id,
            r is None <==> !has_session(self.sessions@, id),
    {
        let mut i: usize = 0;
        while i < self.sessions.len()
            invariant
                i <= self.sessions@.len(),
                forall|j: int| 0 <= j < i ==> #[trigger] self.sessions@[j].id != id,
            decreases self.sessions@.len() - i,
        {
            if self.sessions[i].id == id {
                return Some(i);
            }
            i = i + 1;
        }
        None
    }

    /// The permission linked to the session `session_id`.
    pub fn get_session_permission_id(&self, session_id: u128) -> (r: Option<u128>)
        ensures
            r is None <==> !has_link(self.links@, session_id),
            r matches Some(pid) ==> exists|k: int|
                0 <= k < self.links@.len() && #[trigger] self.links@[k] == (SessionPermissionLink {
                    session_id,
                    permission_id: pid,
                }),
    {
        let mut i: usize = 0;
        while i < self.links.len()
            invariant
                i <= self.links@.len(),
                forall|j: int| 0 <= j < i ==> #[trigger] self.links@[j].session_id != session_id,
            decreases self.links@.len() - i,
        {
            if self.links[i].session_id == session_id {
                assert(self.links@[i as int] == SessionPermissionLink {
                    session_id,
                    permission_id: self.links@[i as int].permission_id,
                });
                return Some(self.links[i].permission_id);
            }
            i = i + 1;
        }
        None
    }
}


/// The session `s` as it is opened at `now` for `user` against `vendor`.
pub open spec fn opened_session(
    s: StreamingSession,
    id: u128,
    code: Seq<char>,
    user: Seq<char>,
    vendor_id: Seq<char>,
    vendor: VendorInfo,
    now: i64,
) -> bool {
    &&& s.id == id
    &&& s.session_code@ == code
    &&& s.user_wallet_address@ == user
    &&& s.vendor_wallet_address@ == vendor.wallet_address@
    &&& s.vendor_id@ == vendor_id
    &&& s.start_time == now
    &&& s.last_billed_time == now
    &&& s.end_time is None
    &&& s.rate_per_hour == vendor.rate_per_hour
    &&& s.total_amount_billed == 0
    &&& s.status is Active
    &&& s.created_at == now
    &&& s.updated_at == now
}

impl IntegratedBillingEngine {
    /// Opens a session under `session_id` and `session_code` for a wallet that
    /// holds a live permission, at the vendor's rate, and links it to that
    /// permission.
    ///
    /// Fails with `NotFound` when the wallet has no live permission, with
    /// `ExternalServiceError` when the vendor's terms are unusable (see
    /// `check_vendor`), and with `StoreError` when the identifier or the code is
    /// taken. A failure changes nothing. The permission's rate stays the one
    /// that debits use, even where the vendor's differs.
    pub fn open_session(
        &mut self,
        user_wallet_address: String,
        vendor_id: String,
        vendor: &VendorInfo,
        session_id: u128,
        session_code: String,
        now: i64,
    ) -> (r: Result<CreateSessionResponse, BillingError>)
        requires
            old(self).wf(),
        ensures
            final(self).wf(),
            final(self).zcash_service == old(self).zcash_service,
            final(self).transactions@ == old(self).transactions@,
            final(self).billing_interval_seconds == old(self).billing_interval_seconds,
            ({
                let live = exists|i: int|
                    #[trigger] live_for(old(self).zcash_service.permissions@, i, user_wallet_address@, now);
                let vendor_ok = is_vendor_wallet(vendor.wallet_address@) && 0 < vendor.rate_per_hour
                    <= MAX_VENDOR_RATE;
                let taken = has_session(old(self).sessions@, session_id) || has_code(
                    old(self).sessions@,
                    session_code@,
                );
                &&& !live ==> r == Err::<CreateSessionResponse, BillingError>(BillingError::NotFound)
                &&& live && !vendor_ok ==> r == Err::<CreateSessionResponse, BillingError>(
                    BillingError::ExternalServiceError,
                )
                &&& live && vendor_ok && taken ==> r == Err::<CreateSessionResponse, BillingError>(
                    BillingError::StoreError,
                )
                &&& live && vendor_ok && !taken ==> r is Ok
            }),
            r is Err ==> final(self).sessions@ == old(self).sessions@ && final(self).links@
                == old(self).links@,
            r matches Ok(resp) ==> {
                let s = final(self).sessions@.last();
                let l = final(self).links@.last();
                &&& resp.session_id == session_id
                &&& resp.session_code@ == session_code@
                &&& final(self).sessions@ == old(self).sessions@.push(s)
                &&& opened_session(s, session_id, session_code@, user_wallet_address@, vendor_id@, *vendor, now)
                &&& final(self).links@ == old(self).links@.push(l)
                &&& l.session_id == session_id
                &&& exists|i: int|
                    #[trigger] live_for(old(self).zcash_service.permissions@, i, user_wallet_address@, now)
                        && old(self).zcash_service.permissions@[i].id == l.permission_id
            },
    {
        let permission = match self.zcash_service.get_active_permission_by_wallet(&user_wallet_address, now) {
            Some(p) => p,
            None => return Err(BillingError::NotFound),
        };
        proof {
            let i = choose|i: int|
                #[trigger] live_for(self.zcash_service.permissions@, i, user_wallet_address@, now)
                    && self.zcash_service.permissions@[i] == permission;
            assert(self.zcash_service.permissions@[i].wf());
        }
        if permission.remaining_amount == 0 {
            return Err(BillingError::InsufficientBalance);
        }
        check_vendor(vendor)?;
        if self.find_session(session_id).is_some() {
            return Err(BillingError::StoreError);
        }
        if self.find_session_by_code(&session_code).is_some() {
            return Err(BillingError::StoreError);
        }
        let ghost before = *self;
        let session = StreamingSession {
            id: session_id,
            session_code: session_code.clone(),
            user_wallet_address,
            vendor_wallet_address: vendor.wallet_address.clone(),
            vendor_id,
            start_time: now,
            last_billed_time: now,
            end_time: None,
            rate_per_hour: vendor.rate_per_hour,
            total_amount_billed: 0,
            status: SessionStatus::Active,
            created_at: now,
            updated_at: now,
        };
        self.sessions.push(session);
        self.links.push(SessionPermissionLink { session_id, permission_id: permission.id });
        proof {
            let ss = self.sessions@;
            let txs = self.transactions@;
            let n = before.sessions@.len() as int;
            assert forall|k: int| 0 <= k < txs.len() implies #[trigger] txs[k].session_id != session_id by {
                let j = choose|j: int| 0 <= j < before.sessions@.len() && #[trigger] before.sessions@[j].id
                    == txs[k].session_id;
            }
            lemma_billed_sum_none(txs, session_id);
            assert forall|k: int| 0 <= k < txs.len() implies has_session(ss, #[trigger] txs[k].session_id) by {
                let j = choose|j: int| 0 <= j < before.sessions@.len() && #[trigger] before.sessions@[j].id
                    == txs[k].session_id;
                assert(ss[j].id == txs[k].session_id);
            }
            assert forall|a: int| 0 <= a < self.links@.len() implies has_session(ss, #[trigger] self.links@[a].session_id) by {
                if a < before.links@.len() {
                    let j = choose|j: int| 0 <= j < before.sessions@.len() && #[trigger] before.sessions@[j].id
                        == before.links@[a].session_id;
                    assert(ss[j].id == self.links@[a].session_id);
                } else {
                    assert(ss[n].id == self.links@[a].session_id);
                }
            }
            assert forall|a: int, b: int|
                0 <= a < self.links@.len() && 0 <= b < self.links@.len() && a != b implies #[trigger] self.links@[a].session_id
                != #[trigger] self.links@[b].session_id by {
                if a == before.links@.len() && b < before.links@.len() {
                    let j = choose|j: int| 0 <= j < before.sessions@.len() && #[trigger] before.sessions@[j].id
                        == before.links@[b].session_id;
                } else if b == before.links@.len() && a < before.links@.len() {
                    let j = choose|j: int| 0 <= j < before.sessions@.len() && #[trigger] before.sessions@[j].id
                        == before.links@[a].session_id;
                }
            }
            assert forall|a: int| 0 <= a < ss.len() implies #[trigger] ss[a].total_amount_billed == billed_sum(txs, ss[a].id) by {
                if a < n {
                    assert(before.sessions@[a] == ss[a]);
                }
            }
            assert(self.links@.last().permission_id == permission.id);
        }
        Ok(CreateSessionResponse { session_code, session_id })
    }
}


/// `new` is `old` with session `i` replaced by one with the same identifier,
/// code and total.
pub open spec fn session_relabelled(old: Seq<StreamingSession>, new: Seq<StreamingSession>, i: int) -> bool {
    &&& new.len() == old.len()
    &&& 0 <= i < old.len()
    &&& new[i].id == old[i].id
    &&& new[i].session_code@ == old[i].session_code@
    &&& forall|j: int| 0 <= j < old.len() && j != i ==> #[trigger] new[j] == old[j]
}

impl IntegratedBillingEngine {
    /// Replacing session `i` by one with the same identifier, code and total,
    /// with nothing else changed but the permissions (kept well formed), keeps
    /// the engine well formed.
    proof fn lemma_relabel_keeps_wf(e0: &IntegratedBillingEngine, e1: &IntegratedBillingEngine, i: int)
        requires
            e0.wf(),
            e1.zcash_service.wf(),
            session_relabelled(e0.sessions@, e1.sessions@, i),
            e1.sessions@[i].total_amount_billed == e0.sessions@[i].total_amount_billed,
            e1.transactions@ == e0.transactions@,
            e1.links@ == e0.links@,
        ensures
            e1.wf(),
    {
        let ss0 = e0.sessions@;
        let ss1 = e1.sessions@;
        assert forall|k: int| 0 <= k < e1.transactions@.len() implies has_session(ss1, #[trigger] e1.transactions@[k].session_id) by {
            let j = choose|j: int| 0 <= j < ss0.len() && #[trigger] ss0[j].id == e1.transactions@[k].session_id;
            assert(ss1[j].id == ss0[j].id);
        }
        assert forall|a: int| 0 <= a < e1.links@.len() implies has_session(ss1, #[trigger] e1.links@[a].session_id) by {
            let j = choose|j: int| 0 <= j < ss0.len() && #[trigger] ss0[j].id == e1.links@[a].session_id;
            assert(ss1[j].id == ss0[j].id);
        }
        assert forall|a: int, b: int|
            0 <= a < ss1.len() && 0 <= b < ss1.len() && a != b implies #[trigger] ss1[a].id != #[trigger] ss1[b].id
                && ss1[a].session_code@ != ss1[b].session_code@ by {
            assert(ss0[a].id != ss0[b].id && ss0[a].session_code@ != ss0[b].session_code@);
        }
        assert forall|a: int| 0 <= a < ss1.len() implies #[trigger] ss1[a].total_amount_billed == billed_sum(
            e1.transactions@,
            ss1[a].id,
        ) by {
            assert(ss0[a].total_amount_billed == billed_sum(e0.transactions@, ss0[a].id));
        }
    }

    /// Opens a session for a wallet with a live permission, as `open_session`
    /// does, under a fresh random identifier and a fresh random code (see
    /// `generate_session_code`). Fails with `StoreError` when no unused code
    /// turns up in `CODE_ATTEMPTS` draws.
    pub fn create_session_with_permission(
        &mut self,
        user_wallet_address: String,
        vendor_id: String,
        vendor: &VendorInfo,
        now: i64,
    ) -> (r: Result<CreateSessionResponse, BillingError>)
        requires
            old(self).wf(),
        ensures
            final(self).wf(),
            final(self).zcash_service == old(self).zcash_service,
            final(self).transactions@ == old(self).transactions@,
            final(self).billing_interval_seconds == old(self).billing_interval_seconds,
            ({
                let live = exists|i: int|
                    #[trigger] live_for(old(self).zcash_service.permissions@, i, user_wallet_address@, now);
                let vendor_ok = is_vendor_wallet(vendor.wallet_address@) && 0 < vendor.rate_per_hour
                    <= MAX_VENDOR_RATE;
                &&& !live ==> r == Err::<CreateSessionResponse, BillingError>(BillingError::NotFound)
                &&& live && !vendor_ok ==> r == Err::<CreateSessionResponse, BillingError>(
                    BillingError::ExternalServiceError,
                )
                &&& live && vendor_ok && r is Err ==> r == Err::<CreateSessionResponse, BillingError>(
                    BillingError::StoreError,
                )
                &&& live && vendor_ok && old(self).sessions@.len() == 0 ==> r is Ok
            }),
            r is Err ==> final(self).sessions@ == old(self).sessions@ && final(self).links@
                == old(self).links@,
            r matches Ok(resp) ==> {
                let s = final(self).sessions@.last();
                &&& final(self).sessions@ == old(self).sessions@.push(s)
                &&& opened_session(s, resp.session_id, resp.session_code@, user_wallet_address@, vendor_id@, *vendor, now)
                &&& is_session_code(resp.session_code@)
                &&& final(self).links@ == old(self).links@.push(final(self).links@.last())
                &&& final(self).links@.last().session_id == resp.session_id
                &&& exists|i: int|
                    #[trigger] live_for(old(self).zcash_service.permissions@, i, user_wallet_address@, now)
                        && old(self).zcash_service.permissions@[i].id == final(self).links@.last().permission_id
            },
    {
        if self.zcash_service.get_active_permission_by_wallet(&user_wallet_address, now).is_none() {
            return Err(BillingError::NotFound);
        }
        check_vendor(vendor)?;
        let mut attempts: usize = 0;
        let mut code = generate_session_code();
        while self.find_session_by_code(&code).is_some()
            invariant
                is_session_code(code@),
                attempts <= CODE_ATTEMPTS,
                self.wf(),
                self.sessions@ == old(self).sessions@,
                self.links@ == old(self).links@,
                self.transactions@ == old(self).transactions@,
                self.zcash_service == old(self).zcash_service,
                self.billing_interval_seconds == old(self).billing_interval_seconds,
                exists|i: int| #[trigger] live_for(old(self).zcash_service.permissions@, i, user_wallet_address@, now),
                is_vendor_wallet(vendor.wallet_address@) && 0 < vendor.rate_per_hour <= MAX_VENDOR_RATE,
            decreases CODE_ATTEMPTS - attempts,
        {
            attempts = attempts + 1;
            if attempts >= CODE_ATTEMPTS {
                return Err(BillingError::StoreError);
            }
            code = generate_session_code();
        }
        let id = fresh_uuid();
        self.open_session(user_wallet_address, vendor_id, vendor, id, code, now)
    }

    /// Restarts the session with code `code` at `now`: its start and last
    /// billing move to `now` and it is `Active` again. A completed or failed
    /// session fails with `InvalidState`; an unknown code with `NotFound`.
    pub fn activate_session(&mut self, code: &String, now: i64) -> (r: Result<StreamingSession, BillingError>)
        requires
            old(self).wf(),
        ensures
            final(self).wf(),
            final(self).zcash_service == old(self).zcash_service,
            final(self).transactions@ == old(self).transactions@,
            final(self).links@ == old(self).links@,
            final(self).billing_interval_seconds == old(self).billing_interval_seconds,
            !has_code(old(self).sessions@, code@) ==> r == Err::<StreamingSession, BillingError>(
                BillingError::NotFound,
            ),
            r is Err ==> final(self).sessions@ == old(self).sessions@,
            forall|i: int|
                0 <= i < old(self).sessions@.len() && #[trigger] old(self).sessions@[i].session_code@
                    == code@ ==> {
                    let o = old(self).sessions@[i];
                    let n = final(self).sessions@[i];
                    &&& (o.status is Completed || o.status is Failed) ==> r == Err::<
                        StreamingSession,
                        BillingError,
                    >(BillingError::InvalidState)
                    &&& (o.status is Active || o.status is Paused) ==> {
                        &&& r == Ok::<StreamingSession, BillingError>(n)
                        &&& session_relabelled(old(self).sessions@, final(self).sessions@, i)
                        &&& n == (StreamingSession {
                            start_time: now,
                            last_billed_time: now,
                            status: SessionStatus::Active,
                            updated_at: now,
                            ..o
                        })
                    }
                },
    {
        let i = match self.find_session_by_code(code) {
            Some(i) => i,
            None => return Err(BillingError::NotFound),
        };
        proof {
            let ss = self.sessions@;
            assert(self.wf());
            assert forall|k: int| 0 <= k < ss.len() && #[trigger] ss[k].session_code@ == code@ implies k
                == i as int by {
                if k != i as int {
                    assert(0 <= i < ss.len());
                    assert(ss[k].id != ss[i as int].id);
                    assert(ss[k].session_code@ != ss[i as int].session_code@);
                }
            }
        }
        if self.sessions[i].status == SessionStatus::Completed || self.sessions[i].status
            == SessionStatus::Failed {
            return Err(BillingError::InvalidState);
        }
        let ghost before = *self;
        let mut s = self.sessions[i].snapshot();
        s.start_time = now;
        s.last_billed_time = now;
        s.status = SessionStatus::Active;
        s.updated_at = now;
        self.sessions[i] = s.snapshot();
        proof {
            Self::lemma_relabel_keeps_wf(&before, self, i as int);
        }
        Ok(s)
    }
}


/// `new` is `old` billed at `now` for `amount`: last billed and updated at
/// `now`, with the amount added to its total.
pub open spec fn billed_session(old: StreamingSession, new: StreamingSession, amount: int, now: i64) -> bool {
    new == (StreamingSession {
        last_billed_time: now,
        total_amount_billed: (old.total_amount_billed + amount) as u128,
        updated_at: now,
        ..old
    })
}

/// `t` records a debit of `amount` ledger units for `s` over `seconds`.
pub open spec fn debit_record(
    t: BillingTransaction,
    s: StreamingSession,
    amount: int,
    seconds: int,
    now: i64,
) -> bool {
    &&& t.session_id == s.id
    &&& t.user_wallet_address@ == s.user_wallet_address@
    &&& t.vendor_wallet_address@ == s.vendor_wallet_address@
    &&& t.amount == amount
    &&& t.duration_minutes == seconds / 60
    &&& t.status is Confirmed
    &&& t.created_at == now
}

impl IntegratedBillingEngine {
    /// Billing session `i` for the amount of one appended transaction of its
    /// own keeps the engine well formed.
    proof fn lemma_bill_keeps_wf(
        e0: &IntegratedBillingEngine,
        e1: &IntegratedBillingEngine,
        i: int,
        t: BillingTransaction,
    )
        requires
            e0.wf(),
            e1.zcash_service.wf(),
            session_relabelled(e0.sessions@, e1.sessions@, i),
            e1.sessions@[i].total_amount_billed == e0.sessions@[i].total_amount_billed + t.amount,
            t.session_id == e0.sessions@[i].id,
            e1.transactions@ == e0.transactions@.push(t),
            e1.links@ == e0.links@,
        ensures
            e1.wf(),
    {
        let ss0 = e0.sessions@;
        let ss1 = e1.sessions@;
        let txs1 = e1.transactions@;
        assert forall|k: int| 0 <= k < txs1.len() implies has_session(ss1, #[trigger] txs1[k].session_id) by {
            if k < e0.transactions@.len() {
                assert(txs1[k] == e0.transactions@[k]);
                let j = choose|j: int| 0 <= j < ss0.len() && #[trigger] ss0[j].id == txs1[k].session_id;
                assert(ss1[j].id == ss0[j].id);
            } else {
                assert(ss1[i].id == txs1[k].session_id);
            }
        }
        assert forall|a: int| 0 <= a < e1.links@.len() implies has_session(ss1, #[trigger] e1.links@[a].session_id) by {
            let j = choose|j: int| 0 <= j < ss0.len() && #[trigger] ss0[j].id == e1.links@[a].session_id;
            assert(ss1[j].id == ss0[j].id);
        }
        assert forall|a: int, b: int|
            0 <= a < ss1.len() && 0 <= b < ss1.len() && a != b implies #[trigger] ss1[a].id != #[trigger] ss1[b].id
                && ss1[a].session_code@ != ss1[b].session_code@ by {
            assert(ss0[a].id != ss0[b].id && ss0[a].session_code@ != ss0[b].session_code@);
        }
        assert forall|a: int| 0 <= a < ss1.len() implies #[trigger] ss1[a].total_amount_billed == billed_sum(
            txs1,
            ss1[a].id,
        ) by {
            lemma_billed_sum_push(e0.transactions@, t, ss1[a].id);
            assert(ss0[a].total_amount_billed == billed_sum(e0.transactions@, ss0[a].id));
            if a != i {
                assert(ss0[a].id != ss0[i].id);
            }
        }
    }

    /// Ends the session with code `code` at `now`, debiting its linked
    /// permission for the whole seconds since it was last billed.
    ///
    /// Fails with `NotFound` for an unknown code or a session without a link,
    /// with `InvalidState` for a session that is not active, and with `Internal`
    /// where its total would leave the range of `u128`; these change nothing.
    /// When the debit fails (see `deduct_post`), the session turns `Failed` and
    /// the debit's error is returned. Otherwise a confirmed transaction of the
    /// session's rate times that time is appended and the session is completed.
    pub fn end_session_with_permission(&mut self, code: &String, now: i64) -> (r: Result<
        BillingTransaction,
        BillingError,
    >)
        requires
            old(self).wf(),
        ensures
            final(self).wf(),
            permissions_evolve(old(self).zcash_service.permissions@, final(self).zcash_service.permissions@),
            final(self).links@ == old(self).links@,
            final(self).billing_interval_seconds == old(self).billing_interval_seconds,
            !has_code(old(self).sessions@, code@) ==> r == Err::<BillingTransaction, BillingError>(
                BillingError::NotFound,
            ) && final(self).sessions@ == old(self).sessions@ && final(self).transactions@
                == old(self).transactions@ && final(self).zcash_service == old(self).zcash_service,
            forall|i: int|
                0 <= i < old(self).sessions@.len() && #[trigger] old(self).sessions@[i].session_code@
                    == code@ ==> {
                    let o = old(self).sessions@[i];
                    let n = final(self).sessions@[i];
                    let seconds = elapsed_spec(o.last_billed_time, now);
                    let amount = o.rate_per_hour * seconds;
                    let unchanged = final(self).sessions@ == old(self).sessions@
                        && final(self).transactions@ == old(self).transactions@
                        && final(self).zcash_service == old(self).zcash_service;
                    &&& !(o.status is Active) ==> r == Err::<BillingTransaction, BillingError>(
                        BillingError::InvalidState,
                    ) && unchanged
                    &&& o.status is Active && !has_link(old(self).links@, o.id) ==> r == Err::<
                        BillingTransaction,
                        BillingError,
                    >(BillingError::NotFound) && unchanged
                    &&& o.status is Active && o.total_amount_billed + amount > u128::MAX ==> r is Err
                        && unchanged
                    &&& forall|k: int|
                        0 <= k < old(self).links@.len() && #[trigger] old(self).links@[k].session_id == o.id
                            && o.status is Active && o.total_amount_billed + amount <= u128::MAX ==> {
                            let pid = old(self).links@[k].permission_id;
                            let perms0 = old(self).zcash_service.permissions@;
                            let perms1 = final(self).zcash_service.permissions@;
                            &&& !has_id(perms0, pid) ==> r == Err::<BillingTransaction, BillingError>(
                                BillingError::NotFound,
                            ) && perms1 == perms0
                            &&& forall|j: int|
                                0 <= j < perms0.len() && #[trigger] perms0[j].id == pid ==> deduct_post(
                                    perms0[j],
                                    perms1[j],
                                    seconds as u64,
                                    now,
                                    outcome(r),
                                )
                            &&& r is Err ==> final(self).transactions@ == old(self).transactions@
                                && session_relabelled(old(self).sessions@, final(self).sessions@, i)
                                && n == (StreamingSession {
                                status: SessionStatus::Failed,
                                updated_at: now,
                                ..o
                            })
                            &&& r matches Ok(t) ==> {
                                &&& debit_record(t, o, amount, seconds, now)
                                &&& t.tx_hash is None
                                &&& final(self).transactions@ == old(self).transactions@.push(t)
                                &&& session_relabelled(old(self).sessions@, final(self).sessions@, i)
                                &&& n == (StreamingSession {
                                    last_billed_time: now,
                                    total_amount_billed: (o.total_amount_billed + amount) as u128,
                                    end_time: Some(now),
                                    status: SessionStatus::Completed,
                                    updated_at: now,
                                    ..o
                                })
                            }
                        }
                },
    {
        let i = match self.find_session_by_code(code) {
            Some(i) => i,
            None => return Err(BillingError::NotFound),
        };
        proof {
            let ss = self.sessions@;
            assert(self.wf());
            assert forall|k: int| 0 <= k < ss.len() && #[trigger] ss[k].session_code@ == code@ implies k
                == i as int by {
                if k != i as int {
                    assert(0 <= i < ss.len());
                    assert(ss[k].id != ss[i as int].id);
                }
            }
        }
        let mut s = self.sessions[i].snapshot();
        if s.status != SessionStatus::Active {
            return Err(BillingError::InvalidState);
        }
        let pid = match self.get_session_permission_id(s.id) {
            Some(pid) => pid,
            None => return Err(BillingError::NotFound),
        };
        proof {
            let ls = self.links@;
            let k0 = choose|k: int| 0 <= k < ls.len() && #[trigger] ls[k] == (SessionPermissionLink {
                session_id: s.id,
                permission_id: pid,
            });
            assert forall|k: int| 0 <= k < ls.len() && #[trigger] ls[k].session_id == s.id implies ls[k].permission_id
                == pid by {
                if k != k0 {
                    assert(ls[k].session_id != ls[k0].session_id);
                }
            }
        }
        let seconds = elapsed_seconds(s.last_billed_time, now);
        proof {
            assert(s.rate_per_hour * seconds <= u64::MAX * u64::MAX) by (nonlinear_arith);
        }
        let amount: u128 = s.rate_per_hour as u128 * seconds as u128;
        if s.total_amount_billed > u128::MAX - amount {
            return Err(BillingError::Internal);
        }
        let ghost before = *self;
        match self.zcash_service.deduct_streaming_time(pid, seconds, now) {
            Ok(_) => {},
            Err(e) => {
                s.status = SessionStatus::Failed;
                s.updated_at = now;
                self.sessions[i] = s;
                proof {
                    Self::lemma_relabel_keeps_wf(&before, self, i as int);
                }
                return Err(e);
            },
        }
        let t = BillingTransaction {
            id: fresh_uuid(),
            session_id: s.id,
            user_wallet_address: s.user_wallet_address.clone(),
            vendor_wallet_address: s.vendor_wallet_address.clone(),
            amount,
            duration_minutes: (seconds / 60) as i64,
            tx_hash: None,
            status: TransactionStatus::Confirmed,
            created_at: now,
        };
        s.last_billed_time = now;
        s.total_amount_billed = s.total_amount_billed + amount;
        s.end_time = Some(now);
        s.status = SessionStatus::Completed;
        s.updated_at = now;
        self.sessions[i] = s;
        self.transactions.push(t.snapshot());
        proof {
            Self::lemma_bill_keeps_wf(&before, self, i as int, t);
        }
        Ok(t)
    }
}


/// The session `sid` is linked to the permission `pid`.
pub open spec fn linked_to(links: Seq<SessionPermissionLink>, sid: u128, pid: u128) -> bool {
    exists|k: int|
        0 <= k < links.len() && #[trigger] links[k] == (SessionPermissionLink { session_id: sid, permission_id: pid })
}

/// What a scheduler sweep at `now` may make of session `o`: one that is not
/// due, or has no link, stays as it is; a due linked one is billed up to `now`
/// for its rate times the whole seconds elapsed, paused, or failed.
pub open spec fn swept_session(o: StreamingSession, n: StreamingSession, linked: bool, now: i64, interval: u64) -> bool {
    let amount = o.rate_per_hour * elapsed_spec(o.last_billed_time, now);
    if !is_due(o, now, interval) || !linked {
        n == o
    } else {
        ||| n == (StreamingSession { status: SessionStatus::Paused, updated_at: now, ..o })
        ||| n == (StreamingSession { status: SessionStatus::Failed, updated_at: now, ..o })
        ||| billed_session(o, n, amount, now)
    }
}

/// The debit of `o`'s elapsed time took its permission from `pb` to `pa` as the
/// session's new state `n` reports: billed (still active) after a successful
/// debit, paused after one refused for want of balance, failed after any other
/// failure or when its billed total would overflow (the permission untouched).
pub open spec fn debit_matches(
    o: StreamingSession,
    n: StreamingSession,
    pb: SpendingPermission,
    pa: SpendingPermission,
    now: i64,
) -> bool {
    let seconds = elapsed_spec(o.last_billed_time, now);
    let amount = o.rate_per_hour * seconds;
    match n.status {
        SessionStatus::Active => deduct_post(pb, pa, seconds as u64, now, Ok(())),
        SessionStatus::Paused => deduct_post(pb, pa, seconds as u64, now, Err(BillingError::InsufficientBalance)),
        SessionStatus::Failed => (o.total_amount_billed + amount > u128::MAX && pa == pb) || exists|e: BillingError|
            e != BillingError::InsufficientBalance && #[trigger] deduct_post(pb, pa, seconds as u64, now, Err(e)),
        SessionStatus::Completed => false,
    }
}

/// `sid` names a session of `e` that is due at `now` and has no link.
pub open spec fn due_unlinked(e: IntegratedBillingEngine, sid: u128, now: i64) -> bool {
    &&& exists|k: int|
        0 <= k < e.sessions@.len() && is_due(#[trigger] e.sessions@[k], now, e.billing_interval_seconds)
            && e.sessions@[k].id == sid
    &&& !has_link(e.links@, sid)
}

/// What one scheduler tick did with one session.
#[derive(Clone, Debug)]
pub enum TickOutcome {
    /// Not active, or billed less than an interval ago: left alone.
    NotDue,
    /// Debited from its permission, with a transaction recorded.
    Billed,
    /// Its permission could not cover the debit.
    Paused,
    /// The debit failed for another reason, given here.
    Failed(BillingError),
    /// It has no permission: the charge goes to the fallback biller.
    Fallback(FallbackCharge),
}

impl IntegratedBillingEngine {
    /// One scheduler tick at `now` for session `i`.
    ///
    /// A session that is not active, or that was billed less than
    /// `billing_interval_seconds` ago, is left alone. A due session without a
    /// link is handed to the fallback biller unchanged. Otherwise its permission
    /// is debited for the whole seconds elapsed (see `deduct_post`): on success a
    /// transaction of the session's rate times that time is recorded and the
    /// session is billed up to `now`; when the permission cannot cover it the
    /// session is paused; on any other failure it turns `Failed`.
    pub fn bill_session_tick(&mut self, i: usize, now: i64) -> (r: TickOutcome)
        requires
            old(self).wf(),
            i < old(self).sessions@.len(),
        ensures
            final(self).wf(),
            permissions_evolve(old(self).zcash_service.permissions@, final(self).zcash_service.permissions@),
            final(self).links@ == old(self).links@,
            final(self).billing_interval_seconds == old(self).billing_interval_seconds,
            session_relabelled(old(self).sessions@, final(self).sessions@, i as int),
            final(self).zcash_service.permissions@.len() == old(self).zcash_service.permissions@.len(),
            ({
                let o = old(self).sessions@[i as int];
                let n = final(self).sessions@[i as int];
                let perms0 = old(self).zcash_service.permissions@;
                let perms1 = final(self).zcash_service.permissions@;
                let due = is_due(o, now, old(self).billing_interval_seconds);
                &&& swept_session(o, n, has_link(old(self).links@, o.id), now, old(self).billing_interval_seconds)
                &&& (r is Billed <==> due && has_link(old(self).links@, o.id) && n.status is Active)
                &&& forall|j: int|
                    0 <= j < perms0.len() && !(due && linked_to(old(self).links@, o.id, #[trigger] perms0[j].id))
                        ==> perms1[j] == perms0[j]
                &&& forall|j: int|
                    0 <= j < perms0.len() && due && linked_to(old(self).links@, o.id, #[trigger] perms0[j].id)
                        ==> debit_matches(o, n, perms0[j], perms1[j], now)
            }),
            ({
                let o = old(self).sessions@[i as int];
                let n = final(self).sessions@[i as int];
                let seconds = elapsed_spec(o.last_billed_time, now);
                let amount = o.rate_per_hour * seconds;
                let perms0 = old(self).zcash_service.permissions@;
                let perms1 = final(self).zcash_service.permissions@;
                let quiet = final(self).sessions@ == old(self).sessions@ && final(self).transactions@
                    == old(self).transactions@ && final(self).zcash_service == old(self).zcash_service;
                &&& !is_due(o, now, old(self).billing_interval_seconds) ==> r is NotDue && quiet
                &&& is_due(o, now, old(self).billing_interval_seconds) && !has_link(old(self).links@, o.id)
                    ==> quiet && (r matches TickOutcome::Fallback(c) && c.session_id == o.id
                    && c.user_wallet_address@ == o.user_wallet_address@ && c.vendor_wallet_address@
                    == o.vendor_wallet_address@ && c.amount == amount && c.duration_minutes == seconds / 60)
                &&& r is NotDue || r is Fallback || (is_due(o, now, old(self).billing_interval_seconds)
                    && has_link(old(self).links@, o.id))
                &&& r is Fallback <==> is_due(o, now, old(self).billing_interval_seconds) && !has_link(
                    old(self).links@,
                    o.id,
                )
                &&& r is Billed ==> {
                    &&& exists|t: BillingTransaction|
                        final(self).transactions@ == old(self).transactions@.push(t) && #[trigger] debit_record(
                            t,
                            o,
                            amount,
                            seconds,
                            now,
                        ) && t.tx_hash is None
                    &&& billed_session(o, n, amount, now)
                }
                &&& !(r is Billed) ==> final(self).transactions@ == old(self).transactions@
                &&& r is Paused ==> n == (StreamingSession { status: SessionStatus::Paused, updated_at: now, ..o })
                &&& r is Failed ==> n == (StreamingSession { status: SessionStatus::Failed, updated_at: now, ..o })
                &&& r is Failed ==> r != TickOutcome::Failed(BillingError::InsufficientBalance)
                &&& forall|k: int|
                    0 <= k < old(self).links@.len() && #[trigger] old(self).links@[k].session_id == o.id
                        && is_due(o, now, old(self).billing_interval_seconds) ==> {
                        let pid = old(self).links@[k].permission_id;
                        &&& o.total_amount_billed + amount > u128::MAX ==> r == TickOutcome::Failed(
                            BillingError::Internal,
                        ) && perms1 == perms0
                        &&& !has_id(perms0, pid) ==> r is Failed && perms1 == perms0
                        &&& forall|j: int|
                            0 <= j < perms0.len() && #[trigger] perms0[j].id == pid && o.total_amount_billed
                                + amount <= u128::MAX ==> match r {
                                TickOutcome::Billed => deduct_post(perms0[j], perms1[j], seconds as u64, now, Ok(())),
                                TickOutcome::Paused => deduct_post(
                                    perms0[j],
                                    perms1[j],
                                    seconds as u64,
                                    now,
                                    Err(BillingError::InsufficientBalance),
                                ),
                                TickOutcome::Failed(e) => deduct_post(perms0[j], perms1[j], seconds as u64, now, Err(e)),
                                _ => false,
                            }
                    }
            }),
    {
        let mut s = self.sessions[i].snapshot();
        let seconds = elapsed_seconds(s.last_billed_time, now);
        if s.status != SessionStatus::Active || seconds < self.billing_interval_seconds {
            return TickOutcome::NotDue;
        }
        proof {
            assert(s.rate_per_hour * seconds <= u64::MAX * u64::MAX) by (nonlinear_arith);
        }
        let amount: u128 = s.rate_per_hour as u128 * seconds as u128;
        let pid = match self.get_session_permission_id(s.id) {
            Some(pid) => pid,
            None => {
                proof {
                    assert forall|p2: u128| !linked_to(self.links@, s.id, p2) by {
                        if linked_to(self.links@, s.id, p2) {
                            let k = choose|k: int|
                                0 <= k < self.links@.len() && #[trigger] self.links@[k] == (SessionPermissionLink {
                                    session_id: s.id,
                                    permission_id: p2,
                                });
                            assert(self.links@[k].session_id == s.id);
                        }
                    }
                }
                return TickOutcome::Fallback(
                    FallbackCharge {
                        session_id: s.id,
                        user_wallet_address: s.user_wallet_address.clone(),
                        vendor_wallet_address: s.vendor_wallet_address.clone(),
                        amount,
                        duration_minutes: (seconds / 60) as i64,
                    },
                );
            },
        };
        proof {
            let ls = self.links@;
            let k0 = choose|k: int| 0 <= k < ls.len() && #[trigger] ls[k] == (SessionPermissionLink {
                session_id: s.id,
                permission_id: pid,
            });
            assert forall|k: int| 0 <= k < ls.len() && #[trigger] ls[k].session_id == s.id implies ls[k].permission_id
                == pid by {
                if k != k0 {
                    assert(ls[k].session_id != ls[k0].session_id);
                }
            }
            assert(linked_to(ls, s.id, pid));
            assert forall|p2: u128| linked_to(ls, s.id, p2) implies p2 == pid by {
                let k = choose|k: int|
                    0 <= k < ls.len() && #[trigger] ls[k] == (SessionPermissionLink { session_id: s.id, permission_id: p2 });
                assert(ls[k].session_id == s.id);
            }
        }
        let ghost before = *self;
        if s.total_amount_billed > u128::MAX - amount {
            s.status = SessionStatus::Failed;
            s.updated_at = now;
            self.sessions[i] = s;
            proof {
                Self::lemma_relabel_keeps_wf(&before, self, i as int);
            }
            return TickOutcome::Failed(BillingError::Internal);
        }
        let debited = self.zcash_service.deduct_streaming_time(pid, seconds, now);
        let ghost perms0 = before.zcash_service.permissions@;
        proof {
            let perms1 = self.zcash_service.permissions@;
            assert forall|j: int| 0 <= j < perms0.len() && perms0[j].id != pid implies perms1[j] == perms0[j] by {
                if has_id(perms0, pid) {
                    let ip = choose|ip: int| 0 <= ip < perms0.len() && #[trigger] perms0[ip].id == pid;
                    assert(only_changed_at(perms0, perms1, ip));
                }
            }
        }
        match debited {
            Ok(_) => {
                let t = BillingTransaction {
                    id: fresh_uuid(),
                    session_id: s.id,
                    user_wallet_address: s.user_wallet_address.clone(),
                    vendor_wallet_address: s.vendor_wallet_address.clone(),
                    amount,
                    duration_minutes: (seconds / 60) as i64,
                    tx_hash: None,
                    status: TransactionStatus::Confirmed,
                    created_at: now,
                };
                s.last_billed_time = now;
                s.total_amount_billed = s.total_amount_billed + amount;
                s.updated_at = now;
                self.sessions[i] = s;
                self.transactions.push(t.snapshot());
                proof {
                    Self::lemma_bill_keeps_wf(&before, self, i as int, t);
                    assert(debit_record(t, before.sessions@[i as int], amount as int, seconds as int, now));
                    let perms1 = self.zcash_service.permissions@;
                    assert forall|j: int| 0 <= j < perms0.len() && perms0[j].id == pid implies debit_matches(
                        before.sessions@[i as int],
                        self.sessions@[i as int],
                        perms0[j],
                        perms1[j],
                        now,
                    ) by {
                        assert(deduct_post(perms0[j], perms1[j], seconds, now, Ok(())));
                    }
                }
                TickOutcome::Billed
            },
            Err(e) => {
                let paused = match e {
                    BillingError::InsufficientBalance => true,
                    _ => false,
                };
                s.status = if paused {
                    SessionStatus::Paused
                } else {
                    SessionStatus::Failed
                };
                s.updated_at = now;
                self.sessions[i] = s;
                proof {
                    Self::lemma_relabel_keeps_wf(&before, self, i as int);
                    let perms1 = self.zcash_service.permissions@;
                    assert forall|j: int| 0 <= j < perms0.len() && perms0[j].id == pid implies debit_matches(
                        before.sessions@[i as int],
                        self.sessions@[i as int],
                        perms0[j],
                        perms1[j],
                        now,
                    ) by {
                        assert(deduct_post(perms0[j], perms1[j], seconds, now, Err(e)));
                        assert(paused <==> e == BillingError::InsufficientBalance);
                        assert(self.sessions@[i as int].status == s.status);
                        if !paused {
                            assert(e != BillingError::InsufficientBalance && deduct_post(
                                perms0[j],
                                perms1[j],
                                seconds as u64,
                                now,
                                Err(e),
                            ));
                        }
                    }
                }
                if paused {
                    TickOutcome::Paused
                } else {
                    TickOutcome::Failed(e)
                }
            },
        }
    }
}


/// The session `o`, now `n`, was debited by the sweep at `now`.
#[verifier::opaque]
pub open spec fn billed_in(e: IntegratedBillingEngine, o: StreamingSession, n: StreamingSession, now: i64) -> bool {
    is_due(o, now, e.billing_interval_seconds) && has_link(e.links@, o.id) && n.status is Active
}

/// `t` is the transaction that the sweep at `now` records for `o`: confirmed,
/// without a chain hash, for the rate times the whole seconds elapsed.
pub open spec fn sweep_record(t: BillingTransaction, o: StreamingSession, now: i64) -> bool {
    let seconds = elapsed_spec(o.last_billed_time, now);
    debit_record(t, o, o.rate_per_hour * seconds, seconds, now) && t.tx_hash is None
}

/// The transaction `t` is the record of a session of `e` that the sweep at
/// `now` billed (its sessions ending as `ss`).
pub open spec fn recorded_for_billed(e: IntegratedBillingEngine, ss: Seq<StreamingSession>, t: BillingTransaction, now: i64) -> bool {
    exists|k: int|
        0 <= k < e.sessions@.len() && billed_in(e, #[trigger] e.sessions@[k], ss[k], now) && sweep_record(
            t,
            e.sessions@[k],
            now,
        )
}

/// After the first `i` sessions of a sweep from `start`: the new transactions
/// are `owner`'s, one per billed session (`tx_of` gives its place, -1 for none).
pub open spec fn sweep_ledger(
    start: IntegratedBillingEngine,
    now: i64,
    txs: Seq<BillingTransaction>,
    ss: Seq<StreamingSession>,
    owner: Seq<int>,
    tx_of: Seq<int>,
    i: int,
) -> bool {
    let base = start.transactions@.len() as int;
    &&& txs.len() == base + owner.len()
    &&& tx_of.len() == i
    &&& forall|m: int|
        0 <= m < owner.len() ==> {
            let k = #[trigger] owner[m];
            &&& 0 <= k < i
            &&& tx_of[k] == m
            &&& sweep_record(txs[base + m], start.sessions@[k], now)
        }
    &&& forall|k: int|
        0 <= k < i ==> ((#[trigger] tx_of[k] >= 0) <==> billed_in(start, start.sessions@[k], ss[k], now))
            && (tx_of[k] >= 0 ==> tx_of[k] < owner.len() && owner[tx_of[k]] == k)
}

/// Step `k` of a sweep over `e` took permission `j` from `pb` to `pa`: debited
/// as `debit_matches` says when session `k` (now `n`) is due and linked to it,
/// untouched otherwise.
pub open spec fn history_step(
    e: IntegratedBillingEngine,
    n: StreamingSession,
    pb: SpendingPermission,
    pa: SpendingPermission,
    k: int,
    j: int,
    now: i64,
) -> bool {
    if sweeps_into(e, k, e.zcash_service.permissions@[j].id, now) {
        debit_matches(e.sessions@[k], n, pb, pa, now)
    } else {
        pa == pb
    }
}

/// `hist` holds the permission table before each session of a sweep over `e`
/// and after the last, `hist[k + 1]` following from `hist[k]` by step `k`; the
/// sessions end as `ss`.
pub open spec fn permission_history(
    e: IntegratedBillingEngine,
    ss: Seq<StreamingSession>,
    hist: Seq<Seq<SpendingPermission>>,
    steps: int,
    now: i64,
) -> bool {
    let plen = e.zcash_service.permissions@.len();
    &&& hist.len() == steps + 1
    &&& hist[0] == e.zcash_service.permissions@
    &&& forall|k: int| 0 <= k < hist.len() ==> (#[trigger] hist[k]).len() == plen
    &&& forall|k: int, j: int|
        0 <= k < steps && 0 <= j < plen ==> #[trigger] history_step(e, ss[k], hist[k][j], hist[k + 1][j], k, j, now)
}

/// Session `k` of `e` is due at `now` and linked to the permission `pid`.
pub open spec fn sweeps_into(e: IntegratedBillingEngine, k: int, pid: u128, now: i64) -> bool {
    &&& 0 <= k < e.sessions@.len()
    &&& is_due(e.sessions@[k], now, e.billing_interval_seconds)
    &&& linked_to(e.links@, e.sessions@[k].id, pid)
}

impl IntegratedBillingEngine {
    /// One step of the sweep keeps what it states of a permission that one due
    /// session alone is linked to.
    proof fn lemma_sweep_permission(
        start: IntegratedBillingEngine,
        sp: Seq<SpendingPermission>,
        p0: Seq<SpendingPermission>,
        p1: Seq<SpendingPermission>,
        s0: Seq<StreamingSession>,
        s1: Seq<StreamingSession>,
        i: int,
        j: int,
        now: i64,
    )
        requires
            0 <= i < start.sessions@.len(),
            0 <= j < sp.len(),
            sp.len() == p0.len(),
            p0.len() == p1.len(),
            s0.len() == start.sessions@.len(),
            s1.len() == s0.len(),
            p0[j].id == sp[j].id,
            s0[i] == start.sessions@[i],
            forall|k: int| 0 <= k < s0.len() && k != i ==> #[trigger] s1[k] == s0[k],
            !sweeps_into(start, i, sp[j].id, now) ==> p1[j] == p0[j],
            sweeps_into(start, i, sp[j].id, now) ==> debit_matches(s0[i], s1[i], p0[j], p1[j], now),
            (forall|k: int| 0 <= k < i ==> !#[trigger] sweeps_into(start, k, sp[j].id, now)) ==> p0[j] == sp[j],
            forall|k: int|
                0 <= k < i && #[trigger] sweeps_into(start, k, sp[j].id, now) && (forall|k2: int|
                    0 <= k2 < i && sweeps_into(start, k2, sp[j].id, now) ==> k2 == k) ==> debit_matches(
                    start.sessions@[k],
                    s0[k],
                    sp[j],
                    p0[j],
                    now,
                ),
        ensures
            forall|k: int|
                0 <= k < i + 1 && #[trigger] sweeps_into(start, k, sp[j].id, now) && (forall|k2: int|
                    0 <= k2 < i + 1 && sweeps_into(start, k2, sp[j].id, now) ==> k2 == k) ==> debit_matches(
                    start.sessions@[k],
                    s1[k],
                    sp[j],
                    p1[j],
                    now,
                ),
    {
        let pid = sp[j].id;
        assert forall|k: int|
            0 <= k < i + 1 && #[trigger] sweeps_into(start, k, pid, now) && (forall|k2: int|
                0 <= k2 < i + 1 && sweeps_into(start, k2, pid, now) ==> k2 == k) implies debit_matches(
                start.sessions@[k],
                s1[k],
                sp[j],
                p1[j],
                now,
            ) by {
            if k == i {
                assert forall|k3: int| 0 <= k3 < i implies !#[trigger] sweeps_into(start, k3, pid, now) by {
                    if sweeps_into(start, k3, pid, now) {
                        assert(k3 == k);
                    }
                }
            } else {
                assert(!sweeps_into(start, i, pid, now));
                assert(s1[k] == s0[k]);
                assert(forall|k2: int| 0 <= k2 < i && sweeps_into(start, k2, pid, now) ==> k2 == k);
            }
        }
    }

    /// At the end of a sweep, each billed session has its transaction.
    proof fn lemma_sweep_billed_recorded(
        start: IntegratedBillingEngine,
        now: i64,
        txs: Seq<BillingTransaction>,
        ss: Seq<StreamingSession>,
        tx_owner: Seq<int>,
        tx_of: Seq<int>,
    )
        requires
            ss.len() == start.sessions@.len(),
            sweep_ledger(start, now, txs, ss, tx_owner, tx_of, start.sessions@.len() as int),
        ensures
            forall|k: int|
                0 <= k < start.sessions@.len() && billed_in(start, #[trigger] start.sessions@[k], ss[k], now)
                    ==> exists|m: int|
                    start.transactions@.len() <= m < txs.len() && sweep_record(#[trigger] txs[m], start.sessions@[k], now),
    {
        let base = start.transactions@.len() as int;
        assert forall|k: int|
            0 <= k < start.sessions@.len() && billed_in(start, #[trigger] start.sessions@[k], ss[k], now)
                implies exists|m: int|
                start.transactions@.len() <= m < txs.len() && sweep_record(#[trigger] txs[m], start.sessions@[k], now) by {
            assert(tx_of[k] >= 0);
            assert(tx_owner[tx_of[k]] == k);
            assert(sweep_record(txs[base + tx_of[k]], start.sessions@[k], now));
        }
    }

    /// At the end of a sweep, each new transaction belongs to a billed session.
    proof fn lemma_sweep_records_owned(
        start: IntegratedBillingEngine,
        now: i64,
        txs: Seq<BillingTransaction>,
        ss: Seq<StreamingSession>,
        tx_owner: Seq<int>,
        tx_of: Seq<int>,
    )
        requires
            ss.len() == start.sessions@.len(),
            sweep_ledger(start, now, txs, ss, tx_owner, tx_of, start.sessions@.len() as int),
        ensures
            forall|m: int|
                start.transactions@.len() <= m < txs.len() ==> #[trigger] recorded_for_billed(start, ss, txs[m], now),
    {
        let base = start.transactions@.len() as int;
        assert forall|m: int| start.transactions@.len() <= m < txs.len() implies #[trigger] recorded_for_billed(
            start,
            ss,
            txs[m],
            now,
        ) by {
            let k = tx_owner[m - base];
            assert(tx_of[k] == m - base);
            assert(billed_in(start, start.sessions@[k], ss[k], now));
            assert(sweep_record(txs[base + (m - base)], start.sessions@[k], now));
        }
    }

    /// At the end of a sweep, new transactions name distinct sessions, all billed.
    proof fn lemma_sweep_records_distinct(
        start: IntegratedBillingEngine,
        now: i64,
        txs: Seq<BillingTransaction>,
        ss: Seq<StreamingSession>,
        tx_owner: Seq<int>,
        tx_of: Seq<int>,
    )
        requires
            ss.len() == start.sessions@.len(),
            sweep_ledger(start, now, txs, ss, tx_owner, tx_of, start.sessions@.len() as int),
            forall|a: int, b: int|
                0 <= a < start.sessions@.len() && 0 <= b < start.sessions@.len() && a != b
                    ==> #[trigger] start.sessions@[a].id != #[trigger] start.sessions@[b].id,
        ensures
            forall|m1: int, m2: int|
                start.transactions@.len() <= m1 < txs.len() && start.transactions@.len() <= m2 < txs.len() && m1
                    != m2 ==> #[trigger] txs[m1].session_id != #[trigger] txs[m2].session_id,
            forall|k: int, m: int|
                0 <= k < start.sessions@.len() && !billed_in(start, #[trigger] start.sessions@[k], ss[k], now)
                    && start.transactions@.len() <= m < txs.len() ==> #[trigger] txs[m].session_id
                    != start.sessions@[k].id,
            forall|k: int, m: int|
                0 <= k < start.sessions@.len() && !is_due(#[trigger] start.sessions@[k], now, start.billing_interval_seconds)
                    && start.transactions@.len() <= m < txs.len() ==> #[trigger] txs[m].session_id
                    != start.sessions@[k].id,
    {
        let base = start.transactions@.len() as int;
        assert forall|m1: int, m2: int|
            start.transactions@.len() <= m1 < txs.len() && start.transactions@.len() <= m2 < txs.len() && m1 != m2
                implies #[trigger] txs[m1].session_id != #[trigger] txs[m2].session_id by {
            let k1 = tx_owner[m1 - base];
            let k2 = tx_owner[m2 - base];
            assert(tx_of[k1] == m1 - base);
            assert(tx_of[k2] == m2 - base);
            assert(sweep_record(txs[base + (m1 - base)], start.sessions@[k1], now));
            assert(sweep_record(txs[base + (m2 - base)], start.sessions@[k2], now));
            assert(start.sessions@[k1].id != start.sessions@[k2].id);
        }
        assert forall|k: int, m: int|
            0 <= k < start.sessions@.len() && !billed_in(start, #[trigger] start.sessions@[k], ss[k], now)
                && start.transactions@.len() <= m < txs.len() implies #[trigger] txs[m].session_id
            != start.sessions@[k].id by {
            let k1 = tx_owner[m - base];
            assert(tx_of[k1] == m - base);
            assert(billed_in(start, start.sessions@[k1], ss[k1], now));
            assert(sweep_record(txs[base + (m - base)], start.sessions@[k1], now));
            assert(start.sessions@[k1].id != start.sessions@[k].id);
        }
        assert forall|k: int, m: int|
            0 <= k < start.sessions@.len() && !is_due(#[trigger] start.sessions@[k], now, start.billing_interval_seconds)
                && start.transactions@.len() <= m < txs.len() implies #[trigger] txs[m].session_id
            != start.sessions@[k].id by {
            reveal(billed_in);
            assert(!billed_in(start, start.sessions@[k], ss[k], now));
        }
    }

    /// One step of the sweep, at session `i`, extends the permission history.
    proof fn lemma_history_step(
        start: IntegratedBillingEngine,
        hist: Seq<Seq<SpendingPermission>>,
        ss0: Seq<StreamingSession>,
        ss1: Seq<StreamingSession>,
        p1: Seq<SpendingPermission>,
        i: int,
        now: i64,
    )
        requires
            0 <= i < start.sessions@.len(),
            ss0.len() == start.sessions@.len(),
            ss1.len() == ss0.len(),
            forall|k: int| 0 <= k < ss0.len() && k != i ==> #[trigger] ss1[k] == ss0[k],
            ss0[i] == start.sessions@[i],
            permission_history(start, ss0, hist, i, now),
            p1.len() == start.zcash_service.permissions@.len(),
            forall|j: int|
                0 <= j < p1.len() ==> (#[trigger] hist[i][j]).id == start.zcash_service.permissions@[j].id,
            forall|j: int|
                0 <= j < p1.len() && !sweeps_into(start, i, #[trigger] hist[i][j].id, now) ==> p1[j] == hist[i][j],
            forall|j: int|
                0 <= j < p1.len() && sweeps_into(start, i, #[trigger] hist[i][j].id, now) ==> debit_matches(
                    start.sessions@[i],
                    ss1[i],
                    hist[i][j],
                    p1[j],
                    now,
                ),
        ensures
            permission_history(start, ss1, hist.push(p1), i + 1, now),
    {
        let h1 = hist.push(p1);
        let plen = start.zcash_service.permissions@.len();
        assert forall|k: int| 0 <= k < h1.len() implies (#[trigger] h1[k]).len() == plen by {
            if k < hist.len() {
                assert(h1[k] == hist[k]);
            }
        }
        assert forall|k: int, j: int|
            0 <= k < i + 1 && 0 <= j < plen implies #[trigger] history_step(
            start,
            ss1[k],
            h1[k][j],
            h1[k + 1][j],
            k,
            j,
            now,
        ) by {
            assert(h1[k] == hist[k]);
            if k < i {
                assert(h1[k + 1] == hist[k + 1]);
                assert(ss1[k] == ss0[k]);
                assert(history_step(start, ss0[k], hist[k][j], hist[k + 1][j], k, j, now));
            } else {
                assert(h1[k + 1] == p1);
                assert(hist[i][j].id == start.zcash_service.permissions@[j].id);
            }
        }
    }

    /// One step of the sweep, at session `i`, keeps `sweep_ledger` with the
    /// transaction `t` appended exactly when the session was billed.
    proof fn lemma_sweep_ledger_step(
        start: IntegratedBillingEngine,
        now: i64,
        txs0: Seq<BillingTransaction>,
        txs1: Seq<BillingTransaction>,
        ss0: Seq<StreamingSession>,
        ss1: Seq<StreamingSession>,
        owner: Seq<int>,
        tx_of: Seq<int>,
        i: int,
        billed: bool,
        t: BillingTransaction,
    )
        requires
            0 <= i < start.sessions@.len(),
            ss0.len() == start.sessions@.len(),
            ss1.len() == ss0.len(),
            forall|k: int| 0 <= k < ss0.len() && k != i ==> #[trigger] ss1[k] == ss0[k],
            billed <==> billed_in(start, start.sessions@[i], ss1[i], now),
            billed ==> txs1 == txs0.push(t) && sweep_record(t, start.sessions@[i], now),
            !billed ==> txs1 == txs0,
            sweep_ledger(start, now, txs0, ss0, owner, tx_of, i),
        ensures
            sweep_ledger(
                start,
                now,
                txs1,
                ss1,
                if billed { owner.push(i) } else { owner },
                tx_of.push(if billed { owner.len() as int } else { -1 }),
                i + 1,
            ),
    {
        let base = start.transactions@.len() as int;
        let owner1 = if billed { owner.push(i) } else { owner };
        let of1 = tx_of.push(if billed { owner.len() as int } else { -1 });
        assert forall|m: int| 0 <= m < owner1.len() implies {
            let k = #[trigger] owner1[m];
            &&& 0 <= k < i + 1
            &&& of1[k] == m
            &&& sweep_record(txs1[base + m], start.sessions@[k], now)
        } by {
            if m < owner.len() {
                assert(owner1[m] == owner[m]);
                let k = owner[m];
                assert(of1[k] == tx_of[k]);
                assert(txs1[base + m] == txs0[base + m]);
            } else {
                assert(owner1[m] == i);
                assert(txs1[base + m] == t);
            }
        }
        assert forall|k: int| 0 <= k < i + 1 implies ((#[trigger] of1[k] >= 0) <==> billed_in(
            start,
            start.sessions@[k],
            ss1[k],
            now,
        )) && (of1[k] >= 0 ==> of1[k] < owner1.len() && owner1[of1[k]] == k) by {
            if k < i {
                assert(of1[k] == tx_of[k]);
                assert(ss1[k] == ss0[k]);
                if tx_of[k] >= 0 {
                    assert(owner1[tx_of[k]] == owner[tx_of[k]]);
                }
            }
        }
    }

    /// One scheduler tick at `now` over every session, as `bill_session_tick`
    /// describes. Returns the charges for the fallback biller.
    ///
    /// Each session ends as `swept_session` says. Each billed session gets
    /// exactly one new transaction, as `sweep_record` describes, and no other
    /// session gets any. Each due session without a link has a charge. A
    /// permission that no due session is linked to is left as it was; one that
    /// exactly one due session is linked to moved as `debit_matches` says.
    #[verifier::spinoff_prover]
    pub fn process_active_sessions_with_permissions(&mut self, now: i64) -> (r: Vec<FallbackCharge>)
        requires
            old(self).wf(),
        ensures
            final(self).wf(),
            permissions_evolve(old(self).zcash_service.permissions@, final(self).zcash_service.permissions@),
            final(self).zcash_service.permissions@.len() == old(self).zcash_service.permissions@.len(),
            final(self).links@ == old(self).links@,
            final(self).billing_interval_seconds == old(self).billing_interval_seconds,
            final(self).sessions@.len() == old(self).sessions@.len(),
            old(self).transactions@.len() <= final(self).transactions@.len(),
            final(self).transactions@.subrange(0, old(self).transactions@.len() as int)
                == old(self).transactions@,
            forall|k: int|
                0 <= k < old(self).sessions@.len() ==> #[trigger] swept_session(
                    old(self).sessions@[k],
                    final(self).sessions@[k],
                    has_link(old(self).links@, old(self).sessions@[k].id),
                    now,
                    old(self).billing_interval_seconds,
                ),
            forall|k: int|
                0 <= k < old(self).sessions@.len() && billed_in(
                    *old(self),
                    #[trigger] old(self).sessions@[k],
                    final(self).sessions@[k],
                    now,
                ) ==> exists|m: int|
                    old(self).transactions@.len() <= m < final(self).transactions@.len() && sweep_record(
                        #[trigger] final(self).transactions@[m],
                        old(self).sessions@[k],
                        now,
                    ),
            forall|m: int|
                old(self).transactions@.len() <= m < final(self).transactions@.len() ==> #[trigger] recorded_for_billed(
                    *old(self),
                    final(self).sessions@,
                    final(self).transactions@[m],
                    now,
                ),
            forall|m1: int, m2: int|
                old(self).transactions@.len() <= m1 < final(self).transactions@.len() && old(
                    self,
                ).transactions@.len() <= m2 < final(self).transactions@.len() && m1 != m2
                    ==> #[trigger] final(self).transactions@[m1].session_id
                    != #[trigger] final(self).transactions@[m2].session_id,
            forall|k: int, m: int|
                0 <= k < old(self).sessions@.len() && !billed_in(
                    *old(self),
                    #[trigger] old(self).sessions@[k],
                    final(self).sessions@[k],
                    now,
                ) && old(self).transactions@.len() <= m < final(self).transactions@.len()
                    ==> #[trigger] final(self).transactions@[m].session_id != old(self).sessions@[k].id,
            forall|k: int, m: int|
                0 <= k < old(self).sessions@.len() && !is_due(
                    #[trigger] old(self).sessions@[k],
                    now,
                    old(self).billing_interval_seconds,
                ) && old(self).transactions@.len() <= m < final(self).transactions@.len()
                    ==> #[trigger] final(self).transactions@[m].session_id != old(self).sessions@[k].id,
            forall|c: int|
                0 <= c < r@.len() ==> #[trigger] due_unlinked(*old(self), r@[c].session_id, now),
            forall|k: int|
                0 <= k < old(self).sessions@.len() && is_due(
                    #[trigger] old(self).sessions@[k],
                    now,
                    old(self).billing_interval_seconds,
                ) && !has_link(old(self).links@, old(self).sessions@[k].id) ==> exists|c: int|
                    0 <= c < r@.len() && #[trigger] r@[c].session_id == old(self).sessions@[k].id,
            forall|j: int|
                0 <= j < old(self).zcash_service.permissions@.len() && (forall|k: int|
                    !#[trigger] sweeps_into(*old(self), k, old(self).zcash_service.permissions@[j].id, now))
                    ==> #[trigger] final(self).zcash_service.permissions@[j]
                    == old(self).zcash_service.permissions@[j],
            exists|hist: Seq<Seq<SpendingPermission>>|
                #[trigger] permission_history(*old(self), final(self).sessions@, hist, old(self).sessions@.len() as int, now)
                    && hist.last() == final(self).zcash_service.permissions@,
            forall|j: int, k: int|
                0 <= j < old(self).zcash_service.permissions@.len() && #[trigger] sweeps_into(
                    *old(self),
                    k,
                    old(self).zcash_service.permissions@[j].id,
                    now,
                ) && (forall|k2: int|
                    sweeps_into(*old(self), k2, old(self).zcash_service.permissions@[j].id, now) ==> k2 == k)
                    ==> debit_matches(
                    old(self).sessions@[k],
                    final(self).sessions@[k],
                    old(self).zcash_service.permissions@[j],
                    final(self).zcash_service.permissions@[j],
                    now,
                ),
    {
        let ghost start = *self;
        let ghost sp = self.zcash_service.permissions@;
        let mut charges: Vec<FallbackCharge> = Vec::new();
        let ghost mut owners: Seq<int> = Seq::empty();
        let ghost mut tx_owner: Seq<int> = Seq::empty();
        let ghost mut tx_of: Seq<int> = Seq::empty();
        let ghost mut hist: Seq<Seq<SpendingPermission>> = seq![self.zcash_service.permissions@];
        let mut i: usize = 0;
        while i < self.sessions.len()
            invariant
                self.wf(),
                start.wf(),
                start == *old(self),
                sp == start.zcash_service.permissions@,
                i <= self.sessions@.len(),
                self.sessions@.len() == start.sessions@.len(),
                permissions_evolve(sp, self.zcash_service.permissions@),
                self.zcash_service.permissions@.len() == sp.len(),
                self.links@ == start.links@,
                self.billing_interval_seconds == start.billing_interval_seconds,
                start.transactions@.len() <= self.transactions@.len(),
                self.transactions@.subrange(0, start.transactions@.len() as int) == start.transactions@,
                forall|k: int|
                    0 <= k < start.sessions@.len() ==> {
                        &&& #[trigger] self.sessions@[k].id == start.sessions@[k].id
                        &&& self.sessions@[k].session_code@ == start.sessions@[k].session_code@
                        &&& k >= i ==> self.sessions@[k] == start.sessions@[k]
                        &&& k < i ==> swept_session(
                            start.sessions@[k],
                            self.sessions@[k],
                            has_link(start.links@, start.sessions@[k].id),
                            now,
                            start.billing_interval_seconds,
                        )
                    },
                sweep_ledger(start, now, self.transactions@, self.sessions@, tx_owner, tx_of, i as int),
                permission_history(start, self.sessions@, hist, i as int, now),
                hist.last() == self.zcash_service.permissions@,
                owners.len() == charges@.len(),
                forall|c: int|
                    0 <= c < charges@.len() ==> {
                        let k = #[trigger] owners[c];
                        &&& 0 <= k < start.sessions@.len()
                        &&& is_due(start.sessions@[k], now, start.billing_interval_seconds)
                        &&& start.sessions@[k].id == charges@[c].session_id
                        &&& !has_link(start.links@, charges@[c].session_id)
                    },
                forall|k: int|
                    0 <= k < i && is_due(#[trigger] start.sessions@[k], now, start.billing_interval_seconds)
                        && !has_link(start.links@, start.sessions@[k].id) ==> exists|c: int|
                        0 <= c < charges@.len() && #[trigger] charges@[c].session_id == start.sessions@[k].id,
                forall|j: int|
                    0 <= j < sp.len() && (forall|k: int| 0 <= k < i ==> !#[trigger] sweeps_into(start, k, sp[j].id, now))
                        ==> #[trigger] self.zcash_service.permissions@[j] == sp[j],
                forall|j: int, k: int|
                    0 <= j < sp.len() && 0 <= k < i && #[trigger] sweeps_into(start, k, sp[j].id, now) && (
                    forall|k2: int| 0 <= k2 < i && sweeps_into(start, k2, sp[j].id, now) ==> k2 == k)
                        ==> debit_matches(
                        start.sessions@[k],
                        self.sessions@[k],
                        sp[j],
                        self.zcash_service.permissions@[j],
                        now,
                    ),
            decreases start.sessions@.len() - i,
        {
            let ghost before = *self;
            let outcome = self.bill_session_tick(i, now);
            proof {
                let ii = i as int;
                let o = start.sessions@[ii];
                let n = self.sessions@[ii];
                assert(before.sessions@[ii] == o);
                lemma_permissions_evolve_trans(sp, before.zcash_service.permissions@, self.zcash_service.permissions@);
                // transactions
                let billed = outcome is Billed;
                let t = if billed {
                    choose|t: BillingTransaction|
                        self.transactions@ == before.transactions@.push(t) && #[trigger] debit_record(
                            t,
                            o,
                            o.rate_per_hour * elapsed_spec(o.last_billed_time, now),
                            elapsed_spec(o.last_billed_time, now),
                            now,
                        ) && t.tx_hash is None
                } else {
                    arbitrary()
                };
                assert forall|k: int| 0 <= k < before.sessions@.len() && k != ii implies #[trigger] self.sessions@[k]
                    == before.sessions@[k] by {}
                reveal(billed_in);
                Self::lemma_sweep_ledger_step(
                    start,
                    now,
                    before.transactions@,
                    self.transactions@,
                    before.sessions@,
                    self.sessions@,
                    tx_owner,
                    tx_of,
                    ii,
                    billed,
                    t,
                );
                tx_of = tx_of.push(if billed { tx_owner.len() as int } else { -1 });
                tx_owner = if billed { tx_owner.push(ii) } else { tx_owner };
                let p0 = before.zcash_service.permissions@;
                let p1 = self.zcash_service.permissions@;
                assert(hist[ii] == p0);
                assert forall|j: int| 0 <= j < p1.len() implies (#[trigger] hist[ii][j]).id == sp[j].id by {
                    assert(p0[j].id == sp[j].id);
                }
                assert forall|j: int|
                    0 <= j < p1.len() && !sweeps_into(start, ii, #[trigger] hist[ii][j].id, now) implies p1[j]
                    == hist[ii][j] by {
                    assert(!(is_due(o, now, before.billing_interval_seconds) && linked_to(before.links@, o.id, p0[j].id)));
                }
                assert forall|j: int|
                    0 <= j < p1.len() && sweeps_into(start, ii, #[trigger] hist[ii][j].id, now) implies debit_matches(
                    start.sessions@[ii],
                    self.sessions@[ii],
                    hist[ii][j],
                    p1[j],
                    now,
                ) by {
                    assert(is_due(o, now, before.billing_interval_seconds) && linked_to(before.links@, o.id, p0[j].id));
                }
                Self::lemma_history_step(start, hist, before.sessions@, self.sessions@, p1, ii, now);
                hist = hist.push(p1);
                assert(self.transactions@.subrange(0, start.transactions@.len() as int) =~= start.transactions@)
                    by {
                    assert(before.transactions@.subrange(0, start.transactions@.len() as int)
                        =~= start.transactions@);
                }
                // permissions
                assert forall|j: int|
                    0 <= j < sp.len() && (forall|k: int| 0 <= k < i + 1 ==> !#[trigger] sweeps_into(start, k, sp[j].id, now))
                        implies #[trigger] self.zcash_service.permissions@[j] == sp[j] by {
                    let p0 = before.zcash_service.permissions@;
                    assert(p0[j].id == sp[j].id);
                    assert(!sweeps_into(start, ii, sp[j].id, now));
                    assert(self.zcash_service.permissions@[j] == p0[j]);
                }
                assert forall|j: int, k: int|
                    0 <= j < sp.len() && 0 <= k < i + 1 && #[trigger] sweeps_into(start, k, sp[j].id, now) && (
                    forall|k2: int| 0 <= k2 < i + 1 && sweeps_into(start, k2, sp[j].id, now) ==> k2 == k)
                        implies debit_matches(
                        start.sessions@[k],
                        self.sessions@[k],
                        sp[j],
                        self.zcash_service.permissions@[j],
                        now,
                    ) by {
                    let p0 = before.zcash_service.permissions@;
                    let p1 = self.zcash_service.permissions@;
                    assert(p0[j].id == sp[j].id);
                    if sweeps_into(start, ii, sp[j].id, now) {
                        assert(is_due(o, now, before.billing_interval_seconds) && linked_to(before.links@, o.id, p0[j].id));
                    } else {
                        assert(!(is_due(o, now, before.billing_interval_seconds) && linked_to(before.links@, o.id, p0[j].id)));
                    }
                    assert forall|kk: int| 0 <= kk < start.sessions@.len() && kk != ii implies #[trigger] self.sessions@[kk]
                        == before.sessions@[kk] by {}
                    Self::lemma_sweep_permission(start, sp, p0, p1, before.sessions@, self.sessions@, ii, j, now);
                }
            }
            let ghost earlier = charges@;
            match outcome {
                TickOutcome::Fallback(c) => {
                    charges.push(c);
                    proof {
                        owners = owners.push(i as int);
                    }
                },
                _ => {},
            }
            proof {
                let ii = i as int;
                assert forall|c: int| 0 <= c < earlier.len() implies charges@[c] == earlier[c] by {}
                assert forall|k: int|
                    0 <= k < i + 1 && is_due(#[trigger] start.sessions@[k], now, start.billing_interval_seconds)
                        && !has_link(start.links@, start.sessions@[k].id) implies exists|c: int|
                        0 <= c < charges@.len() && #[trigger] charges@[c].session_id == start.sessions@[k].id by {
                    if k == ii {
                        assert(charges@[earlier.len() as int].session_id == start.sessions@[k].id);
                    } else {
                        let c = choose|c: int|
                            0 <= c < earlier.len() && #[trigger] earlier[c].session_id == start.sessions@[k].id;
                        assert(charges@[c] == earlier[c]);
                    }
                }
            }
            let ghost prev = i as int;
            let ghost o = start.sessions@[prev];
            let ghost n = self.sessions@[prev];
            i = i + 1;
            proof {
                assert forall|k: int| 0 <= k < start.sessions@.len() implies {
                    &&& #[trigger] self.sessions@[k].id == start.sessions@[k].id
                    &&& self.sessions@[k].session_code@ == start.sessions@[k].session_code@
                    &&& k >= i ==> self.sessions@[k] == start.sessions@[k]
                    &&& k < i ==> swept_session(
                        start.sessions@[k],
                        self.sessions@[k],
                        has_link(start.links@, start.sessions@[k].id),
                        now,
                        start.billing_interval_seconds,
                    )
                } by {
                    assert(before.sessions@[k].id == start.sessions@[k].id);
                    if k != prev {
                        assert(self.sessions@[k] == before.sessions@[k]);
                    } else {
                        assert(swept_session(o, n, has_link(before.links@, o.id), now, before.billing_interval_seconds));
                    }
                }
                assert(forall|k: int|
                    0 <= k < start.sessions@.len() ==> {
                        &&& #[trigger] self.sessions@[k].id == start.sessions@[k].id
                        &&& self.sessions@[k].session_code@ == start.sessions@[k].session_code@
                        &&& k >= i ==> self.sessions@[k] == start.sessions@[k]
                        &&& k < i ==> swept_session(
                            start.sessions@[k],
                            self.sessions@[k],
                            has_link(start.links@, start.sessions@[k].id),
                            now,
                            start.billing_interval_seconds,
                        )
                    });
            }
        }
        assert(start == *old(self));
        assert forall|k: int| 0 <= k < start.sessions@.len() implies #[trigger] swept_session(
            start.sessions@[k],
            self.sessions@[k],
            has_link(start.links@, start.sessions@[k].id),
            now,
            start.billing_interval_seconds,
        ) by {
            assert(self.sessions@[k].id == start.sessions@[k].id);
        }
        proof {
            Self::lemma_sweep_billed_recorded(start, now, self.transactions@, self.sessions@, tx_owner, tx_of);
            Self::lemma_sweep_records_owned(start, now, self.transactions@, self.sessions@, tx_owner, tx_of);
            Self::lemma_sweep_records_distinct(start, now, self.transactions@, self.sessions@, tx_owner, tx_of);
        }
        assert forall|c: int| 0 <= c < charges@.len() implies #[trigger] due_unlinked(
            *old(self),
            charges@[c].session_id,
            now,
        ) by {
            let k = owners[c];
            assert(0 <= k < old(self).sessions@.len() && is_due(
                old(self).sessions@[k],
                now,
                old(self).billing_interval_seconds,
            ) && old(self).sessions@[k].id == charges@[c].session_id);
        }
        charges
    }
}


impl FallbackCharge {
    /// Whether an on-chain balance of `balance` ledger units covers the charge.
    pub fn covered_by(&self, balance: u128) -> (r: bool)
        ensures
            r == (balance >= self.amount),
    {
        balance >= self.amount
    }

    /// Whether the fallback biller may bill the charge, given what the balance
    /// query of the user's on-chain account answered: its error is passed on,
    /// and a balance below the charge is refused with `InsufficientBalance`.
    pub fn check_balance(&self, balance: Result<u128, BillingError>) -> (r: Result<(), BillingError>)
        ensures
            match balance {
                Err(e) => r == Err::<(), BillingError>(e),
                Ok(b) => if b >= self.amount {
                    r is Ok
                } else {
                    r == Err::<(), BillingError>(BillingError::InsufficientBalance)
                },
            },
    {
        match balance {
            Err(e) => Err(e),
            Ok(b) => {
                if self.covered_by(b) {
                    Ok(())
                } else {
                    Err(BillingError::InsufficientBalance)
                }
            },
        }
    }
}

impl IntegratedBillingEngine {
    /// Records what the fallback biller made of `charge` at `now`.
    ///
    /// With the hash of the on-chain bill, a confirmed transaction carrying it
    /// is appended and the session is billed up to `now`; with an error the
    /// session turns `Failed` and the error is returned. Fails with `NotFound`
    /// for an unknown session, with `InvalidState` for one that is no longer
    /// active, and with `Internal` where its total would leave the range of
    /// `u128`; these change nothing.
    pub fn settle_fallback_charge(
        &mut self,
        charge: &FallbackCharge,
        bill: Result<String, BillingError>,
        now: i64,
    ) -> (r: Result<BillingTransaction, BillingError>)
        requires
            old(self).wf(),
        ensures
            final(self).wf(),
            final(self).zcash_service == old(self).zcash_service,
            final(self).links@ == old(self).links@,
            final(self).billing_interval_seconds == old(self).billing_interval_seconds,
            !has_session(old(self).sessions@, charge.session_id) ==> r == Err::<
                BillingTransaction,
                BillingError,
            >(BillingError::NotFound) && final(self).sessions@ == old(self).sessions@,
            !(r is Ok) ==> final(self).transactions@ == old(self).transactions@,
            forall|i: int|
                0 <= i < old(self).sessions@.len() && #[trigger] old(self).sessions@[i].id
                    == charge.session_id ==> {
                    let o = old(self).sessions@[i];
                    let n = final(self).sessions@[i];
                    &&& !(o.status is Active) ==> r == Err::<BillingTransaction, BillingError>(
                        BillingError::InvalidState,
                    ) && final(self).sessions@ == old(self).sessions@
                    &&& o.status is Active && o.total_amount_billed + charge.amount > u128::MAX ==> r
                        == Err::<BillingTransaction, BillingError>(BillingError::Internal)
                        && final(self).sessions@ == old(self).sessions@
                    &&& o.status is Active && o.total_amount_billed + charge.amount <= u128::MAX ==> match bill {
                        Ok(h) => r matches Ok(t) && final(self).transactions@ == old(self).transactions@.push(t)
                            && t.session_id == o.id && t.amount == charge.amount && t.tx_hash == Some(h)
                            && t.status is Confirmed && t.duration_minutes == charge.duration_minutes
                            && session_relabelled(old(self).sessions@, final(self).sessions@, i)
                            && billed_session(o, n, charge.amount as int, now),
                        Err(e) => r == Err::<BillingTransaction, BillingError>(e) && session_relabelled(
                            old(self).sessions@,
                            final(self).sessions@,
                            i,
                        ) && n == (StreamingSession { status: SessionStatus::Failed, updated_at: now, ..o }),
                    }
                },
    {
        let i = match self.find_session(charge.session_id) {
            Some(i) => i,
            None => return Err(BillingError::NotFound),
        };
        proof {
            let ss = self.sessions@;
            assert(self.wf());
            assert forall|k: int| 0 <= k < ss.len() && #[trigger] ss[k].id == charge.session_id implies k
                == i as int by {
                if k != i as int {
                    assert(0 <= i < ss.len());
                    assert(ss[k].id != ss[i as int].id);
                }
            }
        }
        let mut s = self.sessions[i].snapshot();
        if s.status != SessionStatus::Active {
            return Err(BillingError::InvalidState);
        }
        if s.total_amount_billed > u128::MAX - charge.amount {
            return Err(BillingError::Internal);
        }
        let ghost before = *self;
        match bill {
            Ok(hash) => {
                let t = BillingTransaction {
                    id: fresh_uuid(),
                    session_id: s.id,
                    user_wallet_address: s.user_wallet_address.clone(),
                    vendor_wallet_address: s.vendor_wallet_address.clone(),
                    amount: charge.amount,
                    duration_minutes: charge.duration_minutes,
                    tx_hash: Some(hash),
                    status: TransactionStatus::Confirmed,
                    created_at: now,
                };
                s.last_billed_time = now;
                s.total_amount_billed = s.total_amount_billed + charge.amount;
                s.updated_at = now;
                self.sessions[i] = s;
                self.transactions.push(t.snapshot());
                proof {
                    Self::lemma_bill_keeps_wf(&before, self, i as int, t);
                }
                Ok(t)
            },
            Err(e) => {
                s.status = SessionStatus::Failed;
                s.updated_at = now;
                self.sessions[i] = s;
                proof {
                    Self::lemma_relabel_keeps_wf(&before, self, i as int);
                }
                Err(e)
            },
        }
    }

    /// What the wallet can still stream under its live permission at `now`;
    /// all zero without one.
    pub fn get_user_streaming_capacity(&self, wallet: &String, now: i64) -> (r: StreamingCapacity)
        requires
            self.wf(),
        ensures
            r.has_permission <==> exists|i: int| #[trigger] live_for(self.zcash_service.permissions@, i, wallet@, now),
            !r.has_permission ==> r.remaining_balance == 0 && r.remaining_seconds == 0 && r.rate_per_hour == 0
                && r.expires_at is None,
            r.has_permission ==> exists|i: int| {
                let p = self.zcash_service.permissions@[i];
                &&& #[trigger] live_for(self.zcash_service.permissions@, i, wallet@, now)
                &&& r.remaining_balance == p.remaining_amount
                &&& r.remaining_seconds == p.remaining_amount / (p.rate_per_hour as u128)
                &&& r.rate_per_hour == p.rate_per_hour
                &&& r.expires_at == Some(p.expires_at)
            },
    {
        match self.zcash_service.get_active_permission_by_wallet(wallet, now) {
            Some(p) => {
                proof {
                    let i = choose|i: int|
                        #[trigger] live_for(self.zcash_service.permissions@, i, wallet@, now)
                            && self.zcash_service.permissions@[i] == p;
                    assert(self.zcash_service.permissions@[i].wf());
                }
                StreamingCapacity {
                    has_permission: true,
                    remaining_balance: p.remaining_amount,
                    remaining_seconds: p.remaining_seconds(),
                    rate_per_hour: p.rate_per_hour,
                    expires_at: Some(p.expires_at),
                }
            },
            None => StreamingCapacity {
                has_permission: false,
                remaining_balance: 0,
                remaining_seconds: 0,
                rate_per_hour: 0,
                expires_at: None,
            },
        }
    }
}


impl IntegratedBillingEngine {
    /// Opens a session that no permission pays for, under `session_id` and
    /// `session_code`, at the vendor's rate; the scheduler bills it through the
    /// fallback biller.
    ///
    /// Fails with `ExternalServiceError` when the vendor's terms are unusable
    /// and with `StoreError` when the identifier or the code is taken; a failure
    /// changes nothing.
    pub fn open_unlinked_session(
        &mut self,
        user_wallet_address: String,
        vendor_id: String,
        vendor: &VendorInfo,
        session_id: u128,
        session_code: String,
        now: i64,
    ) -> (r: Result<CreateSessionResponse, BillingError>)
        requires
            old(self).wf(),
        ensures
            final(self).wf(),
            final(self).zcash_service == old(self).zcash_service,
            final(self).transactions@ == old(self).transactions@,
            final(self).links@ == old(self).links@,
            final(self).billing_interval_seconds == old(self).billing_interval_seconds,
            ({
                let vendor_ok = is_vendor_wallet(vendor.wallet_address@) && 0 < vendor.rate_per_hour
                    <= MAX_VENDOR_RATE;
                let taken = has_session(old(self).sessions@, session_id) || has_code(
                    old(self).sessions@,
                    session_code@,
                );
                &&& !vendor_ok ==> r == Err::<CreateSessionResponse, BillingError>(
                    BillingError::ExternalServiceError,
                )
                &&& vendor_ok && taken ==> r == Err::<CreateSessionResponse, BillingError>(
                    BillingError::StoreError,
                )
                &&& vendor_ok && !taken ==> r is Ok
            }),
            r is Err ==> final(self).sessions@ == old(self).sessions@,
            r matches Ok(resp) ==> {
                let s = final(self).sessions@.last();
                &&& resp.session_id == session_id
                &&& resp.session_code@ == session_code@
                &&& final(self).sessions@ == old(self).sessions@.push(s)
                &&& opened_session(s, session_id, session_code@, user_wallet_address@, vendor_id@, *vendor, now)
            },
    {
        check_vendor(vendor)?;
        if self.find_session(session_id).is_some() {
            return Err(BillingError::StoreError);
        }
        if self.find_session_by_code(&session_code).is_some() {
            return Err(BillingError::StoreError);
        }
        let ghost before = *self;
        let session = StreamingSession {
            id: session_id,
            session_code: session_code.clone(),
            user_wallet_address,
            vendor_wallet_address: vendor.wallet_address.clone(),
            vendor_id,
            start_time: now,
            last_billed_time: now,
            end_time: None,
            rate_per_hour: vendor.rate_per_hour,
            total_amount_billed: 0,
            status: SessionStatus::Active,
            created_at: now,
            updated_at: now,
        };
        self.sessions.push(session);
        proof {
            let ss = self.sessions@;
            let txs = self.transactions@;
            let n = before.sessions@.len() as int;
            assert forall|k: int| 0 <= k < txs.len() implies #[trigger] txs[k].session_id != session_id by {
                let j = choose|j: int| 0 <= j < before.sessions@.len() && #[trigger] before.sessions@[j].id
                    == txs[k].session_id;
            }
            lemma_billed_sum_none(txs, session_id);
            assert forall|k: int| 0 <= k < txs.len() implies has_session(ss, #[trigger] txs[k].session_id) by {
                let j = choose|j: int| 0 <= j < before.sessions@.len() && #[trigger] before.sessions@[j].id
                    == txs[k].session_id;
                assert(ss[j].id == txs[k].session_id);
            }
            assert forall|a: int| 0 <= a < self.links@.len() implies has_session(ss, #[trigger] self.links@[a].session_id) by {
                let j = choose|j: int| 0 <= j < before.sessions@.len() && #[trigger] before.sessions@[j].id
                    == before.links@[a].session_id;
                assert(ss[j].id == self.links@[a].session_id);
            }
            assert forall|a: int| 0 <= a < ss.len() implies #[trigger] ss[a].total_amount_billed == billed_sum(txs, ss[a].id) by {
                if a < n {
                    assert(before.sessions@[a] == ss[a]);
                }
            }
        }
        Ok(CreateSessionResponse { session_code, session_id })
    }

    /// Opens a session that no permission pays for, as `open_unlinked_session`
    /// does, under a fresh random identifier and code. Fails with `StoreError`
    /// when no unused code turns up in `CODE_ATTEMPTS` draws.
    pub fn create_unlinked_session(
        &mut self,
        user_wallet_address: String,
        vendor_id: String,
        vendor: &VendorInfo,
        now: i64,
    ) -> (r: Result<CreateSessionResponse, BillingError>)
        requires
            old(self).wf(),
        ensures
            final(self).wf(),
            final(self).zcash_service == old(self).zcash_service,
            final(self).transactions@ == old(self).transactions@,
            final(self).links@ == old(self).links@,
            final(self).billing_interval_seconds == old(self).billing_interval_seconds,
            !(is_vendor_wallet(vendor.wallet_address@) && 0 < vendor.rate_per_hour <= MAX_VENDOR_RATE)
                ==> r == Err::<CreateSessionResponse, BillingError>(BillingError::ExternalServiceError),
            is_vendor_wallet(vendor.wallet_address@) && 0 < vendor.rate_per_hour <= MAX_VENDOR_RATE
                && old(self).sessions@.len() == 0 ==> r is Ok,
            r is Err ==> final(self).sessions@ == old(self).sessions@,
            r matches Ok(resp) ==> {
                let s = final(self).sessions@.last();
                &&& final(self).sessions@ == old(self).sessions@.push(s)
                &&& opened_session(s, resp.session_id, resp.session_code@, user_wallet_address@, vendor_id@, *vendor, now)
                &&& is_session_code(resp.session_code@)
            },
    {
        check_vendor(vendor)?;
        let mut attempts: usize = 0;
        let mut code = generate_session_code();
        while self.find_session_by_code(&code).is_some()
            invariant
                is_session_code(code@),
                attempts <= CODE_ATTEMPTS,
                self.wf(),
                self.sessions@ == old(self).sessions@,
                self.links@ == old(self).links@,
                self.transactions@ == old(self).transactions@,
                self.zcash_service == old(self).zcash_service,
                self.billing_interval_seconds == old(self).billing_interval_seconds,
                is_vendor_wallet(vendor.wallet_address@) && 0 < vendor.rate_per_hour <= MAX_VENDOR_RATE,
            decreases CODE_ATTEMPTS - attempts,
        {
            attempts = attempts + 1;
            if attempts >= CODE_ATTEMPTS {
                return Err(BillingError::StoreError);
            }
            code = generate_session_code();
        }
        let id = fresh_uuid();
        self.open_unlinked_session(user_wallet_address, vendor_id, vendor, id, code, now)
    }
}

} // verus!
