use vstd::prelude::*;

use crate::error::BillingError;
use crate::text::string_from_chars;

verus! {

/// Length of a session code.
pub const SESSION_CODE_LEN: usize = 12;

/// Number of symbols a session code is drawn from: `A`..`Z` then `0`..`9`.
pub const SESSION_CODE_ALPHABET_LEN: usize = 36;

/// Highest hourly rate a vendor may charge: 1000 coins, in zatoshi per hour.
pub const MAX_VENDOR_RATE: u64 = 100_000_000_000;

#[derive(Clone, Copy, Debug, PartialEq, Eq, Structural)]
pub enum SessionStatus {
    Active,
    Paused,
    Completed,
    Failed,
}

#[derive(Clone, Copy, Debug, PartialEq, Eq, Structural)]
pub enum TransactionStatus {
    Pending,
    Confirmed,
    Failed,
}

/// An open consumption context against one permission.
///
/// The rate is zatoshi per hour, the billed total is in ledger units and
/// instants are milliseconds since the Unix epoch.
#[derive(Clone, Debug)]
pub struct StreamingSession {
    pub id: u128,
    pub session_code: String,
    pub user_wallet_address: String,
    pub vendor_wallet_address: String,
    pub vendor_id: String,
    pub start_time: i64,
    pub last_billed_time: i64,
    pub end_time: Option<i64>,
    pub rate_per_hour: u64,
    pub total_amount_billed: u128,
    pub status: SessionStatus,
    pub created_at: i64,
    pub updated_at: i64,
}

/// An append-only record of one debit, in ledger units.
#[derive(Clone, Debug)]
pub struct BillingTransaction {
    pub id: u128,
    pub session_id: u128,
    pub user_wallet_address: String,
    pub vendor_wallet_address: String,
    pub amount: u128,
    pub duration_minutes: i64,
    pub tx_hash: Option<String>,
    pub status: TransactionStatus,
    pub created_at: i64,
}

/// A vendor as the directory describes it; the rate is zatoshi per hour.
#[derive(Clone, Debug)]
pub struct VendorInfo {
    pub id: String,
    pub wallet_address: String,
    pub rate_per_hour: u64,
    pub currency: String,
}

#[derive(Clone, Debug)]
pub struct CreateSessionRequest {
    pub user_wallet_address: String,
    pub vendor_id: String,
}

#[derive(Clone, Debug)]
pub struct CreateSessionResponse {
    pub session_code: String,
    pub session_id: u128,
}

#[derive(Clone, Debug)]
pub struct ActivateSessionRequest {
    pub session_code: String,
}

#[derive(Clone, Debug)]
pub struct EndSessionRequest {
    pub session_code: String,
}

#[derive(Clone, Debug)]
pub struct UpdateStreamingTimeRequest {
    pub session_code: String,
    pub streaming_duration_seconds: u64,
}

/// Whole seconds from `from` to `to` (milliseconds); nothing when `to` is not
/// later than `from`.
pub open spec fn elapsed_spec(from: i64, to: i64) -> int {
    if to <= from {
        0
    } else {
        (to - from) / 1000
    }
}

/// Whole seconds elapsed from `from` to `to`, both in milliseconds.
pub fn elapsed_seconds(from: i64, to: i64) -> (r: u64)
    ensures
        r == elapsed_spec(from, to),
{
    if to <= from {
        0
    } else {
        let span: i128 = to as i128 - from as i128;
        (span / 1000) as u64
    }
}

/// The symbol at position `i` of the session-code alphabet.
pub open spec fn code_symbol(i: int) -> char {
    if i < 26 {
        (65 + i) as char
    } else {
        (48 + i - 26) as char
    }
}

/// `c` is an upper-case ASCII letter or an ASCII digit.
pub open spec fn is_code_char(c: char) -> bool {
    ('A' <= c && c <= 'Z') || ('0' <= c && c <= '9')
}

pub open spec fn is_session_code(s: Seq<char>) -> bool {
    s.len() == SESSION_CODE_LEN && forall|k: int| 0 <= k < s.len() ==> #[trigger] is_code_char(s[k])
}

fn symbol_at(i: usize) -> (c: char)
    requires
        i < SESSION_CODE_ALPHABET_LEN,
    ensures
        c == code_symbol(i as int),
        is_code_char(c),
{
    if i < 26 {
        ((65 + i) as u8) as char
    } else {
        ((48 + i - 26) as u8) as char
    }
}

/// Relies on `rand::rng` (the thread-local generator, seeded from the operating
/// system) and `Rng::random_range`, which returns a value of the half-open range
/// and panics only when it is empty.
#[verifier::external_body]
fn random_below(bound: usize) -> (r: usize)
    requires
        bound > 0,
    ensures
        r < bound,
{
    rand::Rng::random_range(&mut rand::rng(), 0..bound)
}

/// A fresh session code: twelve symbols drawn from `A`..`Z` and `0`..`9`.
pub fn generate_session_code() -> (r: String)
    ensures
        is_session_code(r@),
{
    let mut chars: Vec<char> = Vec::new();
    while chars.len() < SESSION_CODE_LEN
        invariant
            chars.len() <= SESSION_CODE_LEN,
            forall|k: int| 0 <= k < chars.len() ==> #[trigger] is_code_char(chars@[k]),
        decreases SESSION_CODE_LEN - chars.len(),
    {
        let i = random_below(SESSION_CODE_ALPHABET_LEN);
        let c = symbol_at(i);
        chars.push(c);
    }
    string_from_chars(&chars)
}

pub open spec fn is_hex_char(c: char) -> bool {
    ('0' <= c && c <= '9') || ('a' <= c && c <= 'f') || ('A' <= c && c <= 'F')
}

/// `0x` followed by forty hexadecimal digits.
pub open spec fn is_vendor_wallet(s: Seq<char>) -> bool {
    &&& s.len() == 42
    &&& s[0] == '0'
    &&& s[1] == 'x'
    &&& forall|k: int| 2 <= k < 42 ==> #[trigger] is_hex_char(s[k])
}

/// Whether `address` is `0x` followed by forty hexadecimal digits.
pub fn is_vendor_wallet_address(address: &str) -> (r: bool)
    ensures
        r == is_vendor_wallet(address@),
{
    let n = address.unicode_len();
    if n != 42 {
        return false;
    }
    if address.get_char(0) != '0' || address.get_char(1) != 'x' {
        return false;
    }
    let mut k: usize = 2;
    while k < 42
        invariant
            2 <= k <= 42,
            address@.len() == 42,
            forall|j: int| 2 <= j < k ==> #[trigger] is_hex_char(address@[j]),
        decreases 42 - k,
    {
        let c = address.get_char(k);
        if !(('0' <= c && c <= '9') || ('a' <= c && c <= 'f') || ('A' <= c && c <= 'F')) {
            assert(!is_hex_char(address@[k as int]));
            return false;
        }
        k = k + 1;
    }
    true
}

/// The vendor's terms as a session may use them: its wallet is `0x` followed
/// by forty hexadecimal digits and its rate lies in `(0, MAX_VENDOR_RATE]`.
/// Anything else fails with `ExternalServiceError`.
pub fn check_vendor(vendor: &VendorInfo) -> (r: Result<(), BillingError>)
    ensures
        r is Ok <==> (is_vendor_wallet(vendor.wallet_address@) && 0 < vendor.rate_per_hour
            <= MAX_VENDOR_RATE),
        r is Err ==> r == Err::<(), BillingError>(BillingError::ExternalServiceError),
{
    if vendor.rate_per_hour == 0 || vendor.rate_per_hour > MAX_VENDOR_RATE {
        return Err(BillingError::ExternalServiceError);
    }
    if !is_vendor_wallet_address(vendor.wallet_address.as_str()) {
        return Err(BillingError::ExternalServiceError);
    }
    Ok(())
}

impl StreamingSession {
    /// A field-by-field copy.
    pub fn snapshot(&self) -> (r: StreamingSession)
        ensures
            r == *self,
    {
        StreamingSession {
            id: self.id,
            session_code: self.session_code.clone(),
            user_wallet_address: self.user_wallet_address.clone(),
            vendor_wallet_address: self.vendor_wallet_address.clone(),
            vendor_id: self.vendor_id.clone(),
            start_time: self.start_time,
            last_billed_time: self.last_billed_time,
            end_time: self.end_time,
            rate_per_hour: self.rate_per_hour,
            total_amount_billed: self.total_amount_billed,
            status: self.status,
            created_at: self.created_at,
            updated_at: self.updated_at,
        }
    }
}

impl BillingTransaction {
    /// A field-by-field copy.
    pub fn snapshot(&self) -> (r: BillingTransaction)
        ensures
            r == *self,
    {
        let tx_hash = match &self.tx_hash {
            Some(h) => Some(h.clone()),
            None => None,
        };
        BillingTransaction {
            id: self.id,
            session_id: self.session_id,
            user_wallet_address: self.user_wallet_address.clone(),
            vendor_wallet_address: self.vendor_wallet_address.clone(),
            amount: self.amount,
            duration_minutes: self.duration_minutes,
            tx_hash,
            status: self.status,
            created_at: self.created_at,
        }
    }
}

} // verus!
