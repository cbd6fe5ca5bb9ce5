use vstd::prelude::*;

use crate::permission::UNITS_PER_ZATOSHI;
use crate::text::{contains, is_prefix, occurs_in, same_text, starts_with};

verus! {

/// Zatoshi in one coin.
pub const ZATOSHI_PER_COIN: u128 = 100_000_000;

/// Decimal places of a coin amount that a zatoshi still resolves.
pub const COIN_DECIMALS: u32 = 8;

/// Bound on a balance read from text: a 96-bit mantissa, scaled to zatoshi.
pub const MAX_PARSED_ZATOSHI: u128 = 0x1_0000_0000_0000_0000_0000_0000 * 100_000_000;

/// The address of the local development node.
pub const TEST_NODE_MARK: &'static str = "localhost:8232";

/// The mantissa and scale of the decimal number the text spells, if any.
pub uninterp spec fn decimal_parse_of(s: Seq<char>) -> Option<(i128, u32)>;

/// Relies on `rust_decimal::Decimal::from_str_exact`, which reads a decimal
/// number without rounding, and on `Decimal::mantissa` and `Decimal::scale`,
/// which give it as a 96-bit integer over a power of ten of at most 28.
#[verifier::external_body]
fn parse_decimal(s: &str) -> (r: Option<(i128, u32)>)
    ensures
        r == decimal_parse_of(s@),
        r matches Some((m, e)) ==> e <= 28 && -0x1_0000_0000_0000_0000_0000_0000 < m
            < 0x1_0000_0000_0000_0000_0000_0000,
{
    match rust_decimal::Decimal::from_str_exact(s) {
        Ok(d) => Some((d.mantissa(), d.scale())),
        Err(_) => None,
    }
}

/// How calls to the chain node authenticate.
#[derive(Clone, Copy, Debug, PartialEq, Eq, Structural)]
pub enum AuthMode {
    /// Basic authentication with the API key as user name and no password.
    ApiKey,
    /// Basic authentication with user name and password.
    UserPassword,
}

/// The authentication that a call to `url` uses: an HTTPS endpoint takes the
/// user name as API key; a plain HTTP endpoint takes user name and password.
pub fn rpc_auth_mode(url: &str) -> (r: AuthMode)
    ensures
        is_prefix("https://"@, url@) ==> r == AuthMode::ApiKey,
        !is_prefix("https://"@, url@) ==> r == AuthMode::UserPassword,
{
    if starts_with(url, "https://") {
        AuthMode::ApiKey
    } else {
        AuthMode::UserPassword
    }
}

/// Whether the gateway talks to the local development node, where it answers
/// address and balance queries itself.
pub fn is_test_endpoint(url: &str) -> (r: bool)
    ensures
        r == occurs_in(TEST_NODE_MARK@, url@),
{
    contains(url, TEST_NODE_MARK)
}

/// The address check of the development node: a transparent address of 35
/// characters.
pub fn test_address_valid(address: &str) -> (r: bool)
    ensures
        r == (is_prefix("t1"@, address@) && address.len() == 35),
{
    starts_with(address, "t1") && address.len() == 35
}

/// Whether `expected` is among the addresses that a transaction's details name.
pub fn sender_in_details(addresses: &Vec<String>, expected: &str) -> (r: bool)
    ensures
        r == exists|k: int| 0 <= k < addresses@.len() && #[trigger] addresses@[k]@ == expected@,
{
    let mut k: usize = 0;
    while k < addresses.len()
        invariant
            k <= addresses@.len(),
            forall|j: int| 0 <= j < k ==> #[trigger] addresses@[j]@ != expected@,
        decreases addresses@.len() - k,
    {
        if same_text(addresses[k].as_str(), expected) {
            return true;
        }
        k = k + 1;
    }
    false
}

/// Whether `expected` occurs in one of the spending-key descriptions of a
/// shielded transaction.
pub fn sender_in_spends(spends: &Vec<String>, expected: &str) -> (r: bool)
    ensures
        r == exists|k: int| 0 <= k < spends@.len() && #[trigger] occurs_in(expected@, spends@[k]@),
{
    let mut k: usize = 0;
    while k < spends.len()
        invariant
            k <= spends@.len(),
            forall|j: int| 0 <= j < k ==> !#[trigger] occurs_in(expected@, spends@[j]@),
        decreases spends@.len() - k,
    {
        if contains(spends[k].as_str(), expected) {
            return true;
        }
        k = k + 1;
    }
    false
}

/// One receipt at the custodial address, with what sender verification
/// concluded of it.
#[derive(Clone, Debug)]
pub struct ReceivedPayment {
    pub amount_zatoshi: u64,
    pub txid: Option<String>,
    pub sender_verified: bool,
}

/// What a receipt contributes: its amount when it has a transaction id and its
/// sender was verified, nothing otherwise.
pub open spec fn counted(p: ReceivedPayment) -> int {
    if p.txid is Some && p.sender_verified {
        p.amount_zatoshi as int
    } else {
        0
    }
}

pub open spec fn verified_sum(ps: Seq<ReceivedPayment>) -> int
    decreases ps.len(),
{
    if ps.len() == 0 {
        0
    } else {
        verified_sum(ps.drop_last()) + counted(ps.last())
    }
}

/// The total received from the declared sender, in zatoshi: receipts without
/// a transaction id or with an unverified sender count for nothing.
pub fn verified_total(payments: &Vec<ReceivedPayment>) -> (r: u128)
    requires
        payments@.len() <= u64::MAX,
    ensures
        r == verified_sum(payments@),
{
    let mut total: u128 = 0;
    let mut k: usize = 0;
    while k < payments.len()
        invariant
            k <= payments@.len(),
            payments@.len() <= u64::MAX,
            total == verified_sum(payments@.subrange(0, k as int)),
            total <= k * u64::MAX,
        decreases payments@.len() - k,
    {
        assert(payments@.subrange(0, k as int + 1).drop_last() =~= payments@.subrange(0, k as int));
        let p = &payments[k];
        if p.txid.is_some() && p.sender_verified {
            proof {
                assert(k * u64::MAX + u64::MAX == (k + 1) * u64::MAX) by (nonlinear_arith);
                assert((k + 1) * u64::MAX <= u64::MAX * u64::MAX + u64::MAX) by (nonlinear_arith)
                    requires
                        k < u64::MAX,
                ;
            }
            total = total + p.amount_zatoshi as u128;
        } else {
            proof {
                assert(k * u64::MAX <= (k + 1) * u64::MAX) by (nonlinear_arith);
            }
        }
        k = k + 1;
    }
    assert(payments@.subrange(0, k as int) =~= payments@);
    total
}

pub open spec fn pow10(e: nat) -> int
    decreases e,
{
    if e == 0 {
        1
    } else {
        10 * pow10((e - 1) as nat)
    }
}

/// A decimal `mantissa / 10^scale` coins in whole zatoshi: a negative amount
/// counts as nothing and digits beyond the eighth decimal are dropped.
pub open spec fn zatoshi_of(mantissa: i128, scale: u32) -> int {
    if mantissa < 0 {
        0
    } else if scale <= COIN_DECIMALS {
        mantissa * pow10((COIN_DECIMALS - scale) as nat)
    } else {
        mantissa as int / pow10((scale - COIN_DECIMALS) as nat)
    }
}

proof fn lemma_pow10_positive(e: nat)
    ensures
        pow10(e) >= 1,
    decreases e,
{
    if e > 0 {
        lemma_pow10_positive((e - 1) as nat);
    }
}

fn pow10_exec(e: u32) -> (r: u128)
    requires
        e <= 28,
    ensures
        r == pow10(e as nat),
{
    let mut r: u128 = 1;
    let mut k: u32 = 0;
    while k < e
        invariant
            k <= e,
            e <= 28,
            r == pow10(k as nat),
            r <= 10_000_000_000_000_000_000_000_000_000u128,
        decreases e - k,
    {
        proof {
            assert(pow10((k + 1) as nat) == 10 * pow10(k as nat));
            if k < 28 {
                lemma_pow10_bound(k as nat);
            }
        }
        r = r * 10;
        k = k + 1;
    }
    r
}

proof fn lemma_pow10_bound(k: nat)
    requires
        k < 28,
    ensures
        10 * pow10(k) <= 10_000_000_000_000_000_000_000_000_000,
    decreases k,
{
    reveal_with_fuel(pow10, 28);
    assert(pow10(27) == 1_000_000_000_000_000_000_000_000_000);
    lemma_pow10_mono(k, 27);
}

/// A decimal amount of coins in whole zatoshi, as `zatoshi_of` says.
pub fn decimal_to_zatoshi(mantissa: i128, scale: u32) -> (r: u128)
    requires
        scale <= 28,
        -0x1_0000_0000_0000_0000_0000_0000 < mantissa < 0x1_0000_0000_0000_0000_0000_0000,
    ensures
        r == zatoshi_of(mantissa, scale),
        r <= MAX_PARSED_ZATOSHI,
{
    if mantissa < 0 {
        0
    } else if scale <= COIN_DECIMALS {
        let f = pow10_exec(COIN_DECIMALS - scale);
        proof {
            assert(f <= 100_000_000) by {
                lemma_pow10_at_most_eight((COIN_DECIMALS - scale) as nat);
            }
            assert(mantissa * f <= 0x1_0000_0000_0000_0000_0000_0000 * 100_000_000) by (nonlinear_arith)
                requires
                    0 <= mantissa < 0x1_0000_0000_0000_0000_0000_0000,
                    0 <= f <= 100_000_000,
            ;
        }
        mantissa as u128 * f
    } else {
        let f = pow10_exec(scale - COIN_DECIMALS);
        proof {
            lemma_pow10_positive((scale - COIN_DECIMALS) as nat);
        }
        proof {
            assert(mantissa as int / (f as int) <= mantissa) by (nonlinear_arith)
                requires
                    mantissa >= 0,
                    f >= 1,
            ;
        }
        mantissa as u128 / f
    }
}

proof fn lemma_pow10_at_most_eight(a: nat)
    requires
        a <= 8,
    ensures
        pow10(a) <= 100_000_000,
{
    reveal_with_fuel(pow10, 9);
    assert(pow10(8) == 100_000_000);
    if a < 8 {
        lemma_pow10_mono(a, 8);
    }
}

proof fn lemma_pow10_mono(a: nat, b: nat)
    requires
        a <= b,
    ensures
        pow10(a) <= pow10(b),
    decreases b - a,
{
    if a < b {
        lemma_pow10_mono(a, (b - 1) as nat);
        lemma_pow10_positive((b - 1) as nat);
    }
}

/// A balance text of the chain node in whole zatoshi: unreadable text counts
/// as nothing.
pub fn balance_text_to_zatoshi(text: &str) -> (r: u128)
    ensures
        r == match decimal_parse_of(text@) {
            Some((m, e)) => zatoshi_of(m, e),
            None => 0,
        },
        r <= MAX_PARSED_ZATOSHI,
{
    match parse_decimal(text) {
        Some((m, e)) => decimal_to_zatoshi(m, e),
        None => 0,
    }
}

/// The balances of a wallet, in zatoshi, and what they allow at a rate.
#[derive(Clone, Debug)]
pub struct WalletBalanceResponse {
    pub wallet_address: String,
    pub transparent_balance: u128,
    pub shielded_balance: u128,
    pub total_balance: u128,
    pub can_stream: bool,
    pub estimated_seconds: u128,
}

/// The balance report of `wallet_address` from the two balance texts of the
/// chain node, at `rate_per_hour` zatoshi per hour: streaming is possible when
/// the total pays for an hour, and the estimate is the whole seconds it pays
/// for (none at a zero rate).
pub fn wallet_balance_from_texts(
    wallet_address: &str,
    transparent: &str,
    shielded: &str,
    rate_per_hour: u64,
) -> (r: WalletBalanceResponse)
    ensures
        r.wallet_address@ == wallet_address@,
        r.transparent_balance == match decimal_parse_of(transparent@) {
            Some((m, e)) => zatoshi_of(m, e),
            None => 0,
        },
        r.shielded_balance == match decimal_parse_of(shielded@) {
            Some((m, e)) => zatoshi_of(m, e),
            None => 0,
        },
        r.total_balance == r.transparent_balance + r.shielded_balance,
        r.can_stream == (r.total_balance >= rate_per_hour),
        r.estimated_seconds == if rate_per_hour == 0 {
            0
        } else if r.total_balance * UNITS_PER_ZATOSHI > u128::MAX {
            u128::MAX as int
        } else {
            r.total_balance * UNITS_PER_ZATOSHI / (rate_per_hour as int)
        },
{
    let t = balance_text_to_zatoshi(transparent);
    let s = balance_text_to_zatoshi(shielded);
    let total = t + s;
    let estimated = if rate_per_hour == 0 {
        0
    } else if total > u128::MAX / UNITS_PER_ZATOSHI {
        u128::MAX
    } else {
        total * UNITS_PER_ZATOSHI / rate_per_hour as u128
    };
    WalletBalanceResponse {
        wallet_address: wallet_address.to_owned(),
        transparent_balance: t,
        shielded_balance: s,
        total_balance: total,
        can_stream: total >= rate_per_hour as u128,
        estimated_seconds: estimated,
    }
}

} // verus!
