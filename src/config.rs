use vstd::prelude::*;

use crate::error::BillingError;

verus! {

/// The value of a string of decimal digits.
pub open spec fn digits_value(s: Seq<char>) -> int
    decreases s.len(),
{
    if s.len() == 0 {
        0
    } else {
        digits_value(s.drop_last()) * 10 + (s.last() as int - '0' as int)
    }
}

pub open spec fn all_digits(s: Seq<char>) -> bool {
    forall|k: int| 0 <= k < s.len() ==> '0' <= #[trigger] s[k] && s[k] <= '9'
}

/// The digits of `s` after an optional leading `+`.
pub open spec fn unsigned_digits(s: Seq<char>) -> Seq<char> {
    if s.len() > 0 && s[0] == '+' {
        s.subrange(1, s.len() as int)
    } else {
        s
    }
}

/// What `u64::from_str` reads from `s`: an optional `+` then at least one
/// decimal digit, of value at most `u64::MAX`.
pub open spec fn u64_parse_of(s: Seq<char>) -> Option<u64> {
    let d = unsigned_digits(s);
    if d.len() > 0 && all_digits(d) && digits_value(d) <= u64::MAX {
        Some(digits_value(d) as u64)
    } else {
        None
    }
}

proof fn lemma_digits_value_nonneg(d: Seq<char>)
    requires
        all_digits(d),
    ensures
        digits_value(d) >= 0,
    decreases d.len(),
{
    if d.len() > 0 {
        lemma_digits_value_nonneg(d.drop_last());
    }
}

/// A prefix of a digit string is worth no more than the whole.
proof fn lemma_digits_prefix_le(d: Seq<char>, j: int)
    requires
        all_digits(d),
        0 <= j <= d.len(),
    ensures
        digits_value(d.subrange(0, j)) <= digits_value(d),
    decreases d.len(),
{
    if j < d.len() {
        let e = d.drop_last();
        assert(e.subrange(0, j) =~= d.subrange(0, j));
        lemma_digits_prefix_le(e, j);
        lemma_digits_value_nonneg(e);
    } else {
        assert(d.subrange(0, j) =~= d);
    }
}

/// The default numbers of the settings read as themselves.
pub proof fn lemma_default_numbers()
    ensures
        u64_parse_of("1"@) == Some(1u64),
        u64_parse_of("30"@) == Some(30u64),
        u64_parse_of("60"@) == Some(60u64),
        u64_parse_of("8080"@) == Some(8080u64),
{
    reveal_strlit("1");
    reveal_strlit("30");
    reveal_strlit("60");
    reveal_strlit("8080");
    reveal_with_fuel(digits_value, 5);
    assert("1"@ =~= seq!['1']);
    assert("30"@ =~= seq!['3', '0']);
    assert("60"@ =~= seq!['6', '0']);
    assert("8080"@ =~= seq!['8', '0', '8', '0']);
    assert(seq!['3', '0'].drop_last() =~= seq!['3']);
    assert(seq!['6', '0'].drop_last() =~= seq!['6']);
    assert(seq!['8', '0', '8', '0'].drop_last() =~= seq!['8', '0', '8']);
    assert(seq!['8', '0', '8'].drop_last() =~= seq!['8', '0']);
    assert(seq!['8', '0'].drop_last() =~= seq!['8']);
    assert(seq!['1'].drop_last() =~= Seq::<char>::empty());
    assert(seq!['3'].drop_last() =~= Seq::<char>::empty());
    assert(seq!['6'].drop_last() =~= Seq::<char>::empty());
    assert(seq!['8'].drop_last() =~= Seq::<char>::empty());
}

/// Reads an unsigned 64-bit integer as `u64::from_str` does.
pub fn parse_u64(s: &str) -> (r: Option<u64>)
    ensures
        r == u64_parse_of(s@),
{
    let n = s.unicode_len();
    let start: usize = if n > 0 && s.get_char(0) == '+' {
        1
    } else {
        0
    };
    let ghost d = unsigned_digits(s@);
    assert(d =~= s@.subrange(start as int, n as int));
    if start >= n {
        return None;
    }
    let mut v: u64 = 0;
    let mut k: usize = start;
    while k < n
        invariant
            n == s@.len(),
            start <= k <= n,
            d == s@.subrange(start as int, n as int),
            d == unsigned_digits(s@),
            all_digits(d.subrange(0, k - start)),
            v == digits_value(d.subrange(0, k - start)),
        decreases n - k,
    {
        let c = s.get_char(k);
        assert(d[k - start] == c);
        if c < '0' || c > '9' {
            assert(!all_digits(d));
            return None;
        }
        let digit: u64 = (c as u32 - '0' as u32) as u64;
        let ghost next = d.subrange(0, k - start + 1);
        assert(next.drop_last() =~= d.subrange(0, k - start));
        assert(digits_value(next) == v * 10 + digit);
        if v > (u64::MAX - digit) / 10 {
            proof {
                assert(v * 10 + digit > u64::MAX) by (nonlinear_arith)
                    requires
                        v > (u64::MAX - digit) / 10,
                        digit <= 9,
                ;
                if all_digits(d) {
                    lemma_digits_prefix_le(d, k - start + 1);
                }
            }
            return None;
        }
        proof {
            assert(v * 10 + digit <= u64::MAX) by (nonlinear_arith)
                requires
                    v <= (u64::MAX - digit) / 10,
                    digit <= 9,
            ;
            assert forall|j: int| 0 <= j < next.len() implies '0' <= #[trigger] next[j] && next[j] <= '9' by {
                if j < next.len() - 1 {
                    assert(next[j] == d.subrange(0, k - start)[j]);
                }
            }
        }
        v = v * 10 + digit;
        k = k + 1;
    }
    assert(d.subrange(0, n - start) =~= d);
    Some(v)
}

/// The value of `key` among the environment pairs `vars` (the last one wins).
pub open spec fn value_of(vars: Seq<(String, String)>, key: Seq<char>) -> Option<Seq<char>>
    decreases vars.len(),
{
    if vars.len() == 0 {
        None
    } else if vars.last().0@ == key {
        Some(vars.last().1@)
    } else {
        value_of(vars.drop_last(), key)
    }
}

/// The value of `key`, or `default` when it is not set.
pub open spec fn value_or(vars: Seq<(String, String)>, key: Seq<char>, default: Seq<char>) -> Seq<char> {
    match value_of(vars, key) {
        Some(v) => v,
        None => default,
    }
}

/// The number that `text` spells, when it fits below `bound`.
pub open spec fn number_below(text: Seq<char>, bound: int) -> Option<u64> {
    match u64_parse_of(text) {
        Some(n) if n <= bound => Some(n),
        _ => None,
    }
}

/// The value of `key` in `vars`.
pub fn lookup(vars: &Vec<(String, String)>, key: &str) -> (r: Option<String>)
    ensures
        match value_of(vars@, key@) {
            Some(v) => r matches Some(s) && s@ == v,
            None => r is None,
        },
{
    let mut found: Option<String> = None;
    let mut k: usize = 0;
    while k < vars.len()
        invariant
            k <= vars@.len(),
            match value_of(vars@.subrange(0, k as int), key@) {
                Some(v) => found matches Some(s) && s@ == v,
                None => found is None,
            },
        decreases vars@.len() - k,
    {
        assert(vars@.subrange(0, k as int + 1).drop_last() =~= vars@.subrange(0, k as int));
        if crate::text::same_text(vars[k].0.as_str(), key) {
            found = Some(vars[k].1.clone());
        }
        k = k + 1;
    }
    assert(vars@.subrange(0, k as int) =~= vars@);
    found
}

fn setting_or(vars: &Vec<(String, String)>, key: &str, default: &str) -> (r: String)
    ensures
        r@ == value_or(vars@, key@, default@),
{
    match lookup(vars, key) {
        Some(v) => v,
        None => default.to_owned(),
    }
}

fn required(vars: &Vec<(String, String)>, key: &str) -> (r: Result<String, BillingError>)
    ensures
        match value_of(vars@, key@) {
            Some(v) => r matches Ok(s) && s@ == v,
            None => r == Err::<String, BillingError>(BillingError::Validation),
        },
{
    match lookup(vars, key) {
        Some(v) => Ok(v),
        None => Err(BillingError::Validation),
    }
}

fn number_setting(vars: &Vec<(String, String)>, key: &str, default: &str, bound: u64) -> (r: Result<
    u64,
    BillingError,
>)
    ensures
        match number_below(value_or(vars@, key@, default@), bound as int) {
            Some(n) => r == Ok::<u64, BillingError>(n),
            None => r == Err::<u64, BillingError>(BillingError::Validation),
        },
{
    let text = setting_or(vars, key, default);
    match parse_u64(text.as_str()) {
        Some(n) => {
            if n <= bound {
                Ok(n)
            } else {
                Err(BillingError::Validation)
            }
        },
        None => Err(BillingError::Validation),
    }
}

/// The chain settings among `vars` are complete and readable.
pub open spec fn zcash_settings_ok(vars: Seq<(String, String)>) -> bool {
    &&& value_of(vars, "ZCASH_RPC_USER"@) is Some
    &&& value_of(vars, "ZCASH_RPC_PASSWORD"@) is Some
    &&& value_of(vars, "ZCASH_SERVICE_WALLET"@) is Some
    &&& number_below(value_or(vars, "ZCASH_MIN_CONFIRMATIONS"@, "1"@), u32::MAX as int) is Some
    &&& number_below(value_or(vars, "DEFAULT_PERMISSION_DURATION_DAYS"@, "30"@), i64::MAX as int) is Some
}

/// The service settings among `vars` are complete and readable.
pub open spec fn settings_ok(vars: Seq<(String, String)>) -> bool {
    &&& value_of(vars, "DATABASE_URL"@) is Some
    &&& value_of(vars, "RPC_URL"@) is Some
    &&& value_of(vars, "CONTRACT_ADDRESS"@) is Some
    &&& value_of(vars, "PRIVATE_KEY"@) is Some
    &&& (value_of(vars, "CHAIN_ID"@) matches Some(t) && u64_parse_of(t) is Some)
    &&& number_below(value_or(vars, "PORT"@, "8080"@), u16::MAX as int) is Some
    &&& number_below(value_or(vars, "BILLING_INTERVAL_SECONDS"@, "60"@), u64::MAX as int) is Some
    &&& value_of(vars, "VENDOR_SERVICE_URL"@) is Some
    &&& value_of(vars, "VENDOR_SERVICE_TOKEN"@) is Some
    &&& zcash_settings_ok(vars)
}

/// Settings of the chain node and of permissions.
#[derive(Clone, Debug)]
pub struct ZcashConfig {
    pub rpc_url: String,
    pub rpc_user: String,
    pub rpc_password: String,
    pub service_wallet_address: String,
    pub min_confirmations: u32,
    pub default_permission_duration_days: i64,
}

/// Settings of the whole service.
#[derive(Clone, Debug)]
pub struct Config {
    pub database_url: String,
    pub redis_url: String,
    pub rpc_url: String,
    pub contract_address: String,
    pub private_key: String,
    pub chain_id: u64,
    pub host: String,
    pub port: u16,
    pub billing_interval_seconds: u64,
    pub vendor_service_url: String,
    pub vendor_service_token: String,
    pub zcash: ZcashConfig,
}

impl ZcashConfig {
    /// The chain settings among the environment pairs `vars`.
    ///
    /// `ZCASH_RPC_USER`, `ZCASH_RPC_PASSWORD` and `ZCASH_SERVICE_WALLET` are
    /// required; `ZCASH_RPC_URL` defaults to the local node,
    /// `ZCASH_MIN_CONFIRMATIONS` to 1 and `DEFAULT_PERMISSION_DURATION_DAYS` to
    /// 30. A missing requirement or an unreadable number fails with
    /// `Validation`.
    pub fn from_vars(vars: &Vec<(String, String)>) -> (r: Result<ZcashConfig, BillingError>)
        ensures
            zcash_settings_ok(vars@) <==> r is Ok,
            r is Err ==> r == Err::<ZcashConfig, BillingError>(BillingError::Validation),
            r matches Ok(c) ==> {
                &&& c.rpc_url@ == value_or(vars@, "ZCASH_RPC_URL"@, "http://127.0.0.1:8232"@)
                &&& value_of(vars@, "ZCASH_RPC_USER"@) == Some(c.rpc_user@)
                &&& value_of(vars@, "ZCASH_RPC_PASSWORD"@) == Some(c.rpc_password@)
                &&& value_of(vars@, "ZCASH_SERVICE_WALLET"@) == Some(c.service_wallet_address@)
                &&& number_below(value_or(vars@, "ZCASH_MIN_CONFIRMATIONS"@, "1"@), u32::MAX as int)
                    == Some(c.min_confirmations as u64)
                &&& number_below(
                    value_or(vars@, "DEFAULT_PERMISSION_DURATION_DAYS"@, "30"@),
                    i64::MAX as int,
                ) == Some(c.default_permission_duration_days as u64)
                &&& c.default_permission_duration_days >= 0
            },
    {
        let rpc_url = setting_or(vars, "ZCASH_RPC_URL", "http://127.0.0.1:8232");
        let rpc_user = required(vars, "ZCASH_RPC_USER")?;
        let rpc_password = required(vars, "ZCASH_RPC_PASSWORD")?;
        let service_wallet_address = required(vars, "ZCASH_SERVICE_WALLET")?;
        let min_confirmations = number_setting(vars, "ZCASH_MIN_CONFIRMATIONS", "1", 4294967295)?;
        let days = number_setting(
            vars,
            "DEFAULT_PERMISSION_DURATION_DAYS",
            "30",
            9223372036854775807,
        )?;
        Ok(ZcashConfig {
            rpc_url,
            rpc_user,
            rpc_password,
            service_wallet_address,
            min_confirmations: min_confirmations as u32,
            default_permission_duration_days: days as i64,
        })
    }
}

impl Config {
    /// The service settings among the environment pairs `vars`.
    ///
    /// `DATABASE_URL`, `RPC_URL`, `CONTRACT_ADDRESS`, `PRIVATE_KEY`, `CHAIN_ID`,
    /// `VENDOR_SERVICE_URL` and `VENDOR_SERVICE_TOKEN` are required, besides
    /// what `ZcashConfig::from_vars` requires; `REDIS_URL` defaults to the
    /// local server, `HOST` to all interfaces, `PORT` to 8080 and
    /// `BILLING_INTERVAL_SECONDS` to 60. A missing requirement or an unreadable
    /// number fails with `Validation`.
    pub fn from_vars(vars: &Vec<(String, String)>) -> (r: Result<Config, BillingError>)
        ensures
            settings_ok(vars@) <==> r is Ok,
            r matches Ok(c) ==> value_of(vars@, "PORT"@) is None ==> c.port == 8080,
            r matches Ok(c) ==> value_of(vars@, "BILLING_INTERVAL_SECONDS"@) is None ==> c.billing_interval_seconds
                == 60,
            r matches Ok(c) ==> value_of(vars@, "ZCASH_MIN_CONFIRMATIONS"@) is None
                ==> c.zcash.min_confirmations == 1,
            r matches Ok(c) ==> value_of(vars@, "DEFAULT_PERMISSION_DURATION_DAYS"@) is None
                ==> c.zcash.default_permission_duration_days == 30,
            r is Err ==> r == Err::<Config, BillingError>(BillingError::Validation),
            r matches Ok(c) ==> {
                &&& value_of(vars@, "DATABASE_URL"@) == Some(c.database_url@)
                &&& c.redis_url@ == value_or(vars@, "REDIS_URL"@, "redis://127.0.0.1:6379"@)
                &&& value_of(vars@, "RPC_URL"@) == Some(c.rpc_url@)
                &&& value_of(vars@, "CONTRACT_ADDRESS"@) == Some(c.contract_address@)
                &&& value_of(vars@, "PRIVATE_KEY"@) == Some(c.private_key@)
                &&& (value_of(vars@, "CHAIN_ID"@) matches Some(t) && u64_parse_of(t) == Some(c.chain_id))
                &&& c.host@ == value_or(vars@, "HOST"@, "0.0.0.0"@)
                &&& number_below(value_or(vars@, "PORT"@, "8080"@), u16::MAX as int) == Some(c.port as u64)
                &&& number_below(value_or(vars@, "BILLING_INTERVAL_SECONDS"@, "60"@), u64::MAX as int)
                    == Some(c.billing_interval_seconds)
                &&& value_of(vars@, "VENDOR_SERVICE_URL"@) == Some(c.vendor_service_url@)
                &&& value_of(vars@, "VENDOR_SERVICE_TOKEN"@) == Some(c.vendor_service_token@)
            },
    {
        let database_url = required(vars, "DATABASE_URL")?;
        let redis_url = setting_or(vars, "REDIS_URL", "redis://127.0.0.1:6379");
        let rpc_url = required(vars, "RPC_URL")?;
        let contract_address = required(vars, "CONTRACT_ADDRESS")?;
        let private_key = required(vars, "PRIVATE_KEY")?;
        let chain_text = required(vars, "CHAIN_ID")?;
        let chain_id = match parse_u64(chain_text.as_str()) {
            Some(n) => n,
            None => return Err(BillingError::Validation),
        };
        let host = setting_or(vars, "HOST", "0.0.0.0");
        let port = number_setting(vars, "PORT", "8080", 65535)?;
        let billing_interval_seconds = number_setting(
            vars,
            "BILLING_INTERVAL_SECONDS",
            "60",
            18446744073709551615,
        )?;
        let vendor_service_url = required(vars, "VENDOR_SERVICE_URL")?;
        let vendor_service_token = required(vars, "VENDOR_SERVICE_TOKEN")?;
        let zcash = ZcashConfig::from_vars(vars)?;
        proof {
            lemma_default_numbers();
        }
        Ok(Config {
            database_url,
            redis_url,
            rpc_url,
            contract_address,
            private_key,
            chain_id,
            host,
            port: port as u16,
            billing_interval_seconds,
            vendor_service_url,
            vendor_service_token,
            zcash,
        })
    }
}

} // verus!
