use vstd::prelude::*;

use crate::error::BillingError;
use crate::text::string_from_chars;

verus! {

/// An Ethereum address: `0x` and forty hexadecimal digits.
pub const ETHEREUM_ADDRESS_PATTERN: &'static str = "^0x[a-fA-F0-9]{40}$";

/// A Zcash address: transparent, Sapling or Sprout.
pub const ZCASH_ADDRESS_PATTERN: &'static str = "^(zs1[a-z0-9]{33}|t1[a-z0-9]{33}|zc1[a-z0-9]{73})$";

/// A session code: twelve upper-case letters or digits.
pub const SESSION_CODE_PATTERN: &'static str = "^[A-Z0-9]{12}$";

/// A vendor identifier: letters, digits, hyphens and underscores.
pub const VENDOR_ID_PATTERN: &'static str = "^[a-zA-Z0-9\\-_]+$";

/// Longest vendor identifier, in characters.
pub const MAX_VENDOR_ID_LEN: usize = 255;

/// Largest amount or hourly rate accepted: 1000 coins, in zatoshi.
pub const MAX_AMOUNT_ZATOSHI: u64 = 100_000_000_000;

/// Longest single streaming stretch: one day, in seconds.
pub const MAX_STREAMING_SECONDS: u64 = 86_400;

/// Whether the regular expression `pattern` compiles (`Some`) and matches
/// somewhere in `text`.
pub uninterp spec fn regex_match_of(pattern: Seq<char>, text: Seq<char>) -> Option<bool>;

/// Whether `c` is alphabetic or numeric in the Unicode sense.
pub uninterp spec fn alphanumeric_of(c: char) -> bool;

/// Which 128-bit value the text denotes as a UUID, if any.
pub uninterp spec fn uuid_parse_of(s: Seq<char>) -> Option<u128>;

/// Relies on `regex::Regex::new`, which compiles `pattern` or reports an
/// error, and `Regex::is_match`, whether `text` holds a match of it.
#[verifier::external_body]
fn pattern_matches(pattern: &str, text: &str) -> (r: Option<bool>)
    ensures
        r == regex_match_of(pattern@, text@),
{
    match regex::Regex::new(pattern) {
        Ok(re) => Some(re.is_match(text)),
        Err(_) => None,
    }
}

/// Relies on `char::is_alphanumeric`; on ASCII it holds of the letters and
/// digits exactly.
#[verifier::external_body]
fn is_alphanumeric(c: char) -> (r: bool)
    ensures
        r == alphanumeric_of(c),
        (c as u32) < 128 ==> (r <==> ('a' <= c <= 'z' || 'A' <= c <= 'Z' || '0' <= c <= '9')),
{
    c.is_alphanumeric()
}

/// Relies on `uuid::Uuid::parse_str`, which reads the hyphenated, simple,
/// braced and URN forms, and `Uuid::as_u128`.
#[verifier::external_body]
fn parse_uuid(s: &str) -> (r: Option<u128>)
    ensures
        r == uuid_parse_of(s@),
{
    match uuid::Uuid::parse_str(s) {
        Ok(u) => Some(u.as_u128()),
        Err(_) => None,
    }
}

/// A vendor identifier of 1 to 255 characters that the vendor pattern matches.
pub open spec fn vendor_id_accepted(s: Seq<char>) -> bool {
    0 < s.len() <= MAX_VENDOR_ID_LEN && regex_match_of(VENDOR_ID_PATTERN@, s) == Some(true)
}

/// A character that survives sanitising.
pub open spec fn is_kept_char(c: char) -> bool {
    alphanumeric_of(c) || c == '-' || c == '_' || c == '@' || c == '.'
}

/// `s` with every character that is not kept removed.
pub open spec fn sanitized(s: Seq<char>) -> Seq<char>
    decreases s.len(),
{
    if s.len() == 0 {
        Seq::empty()
    } else if is_kept_char(s.last()) {
        sanitized(s.drop_last()).push(s.last())
    } else {
        sanitized(s.drop_last())
    }
}

/// `r` is `Ok` exactly when `pattern` compiles and matches `text`, and
/// `Validation` otherwise.
pub open spec fn pattern_verdict(r: Result<(), BillingError>, pattern: Seq<char>, text: Seq<char>) -> bool {
    &&& r is Ok <==> regex_match_of(pattern, text) == Some(true)
    &&& r is Err ==> r == Err::<(), BillingError>(BillingError::Validation)
}

/// Checks of the inputs that reach the billing core.
pub struct Validator;

impl Validator {
    fn check_pattern(pattern: &str, text: &str) -> (r: Result<(), BillingError>)
        ensures
            pattern_verdict(r, pattern@, text@),
    {
        match pattern_matches(pattern, text) {
            Some(true) => Ok(()),
            _ => Err(BillingError::Validation),
        }
    }

    /// Accepts `0x` followed by forty hexadecimal digits.
    pub fn validate_ethereum_address(address: &str) -> (r: Result<(), BillingError>)
        ensures
            pattern_verdict(r, ETHEREUM_ADDRESS_PATTERN@, address@),
    {
        Self::check_pattern(ETHEREUM_ADDRESS_PATTERN, address)
    }

    /// Accepts a transparent (`t1`), Sapling (`zs1`) or Sprout (`zc1`) address.
    pub fn validate_zcash_address(address: &str) -> (r: Result<(), BillingError>)
        ensures
            pattern_verdict(r, ZCASH_ADDRESS_PATTERN@, address@),
    {
        Self::check_pattern(ZCASH_ADDRESS_PATTERN, address)
    }

    /// Accepts twelve upper-case letters or digits.
    pub fn validate_session_code(code: &str) -> (r: Result<(), BillingError>)
        ensures
            pattern_verdict(r, SESSION_CODE_PATTERN@, code@),
    {
        Self::check_pattern(SESSION_CODE_PATTERN, code)
    }

    /// Accepts 1 to 255 letters, digits, hyphens and underscores. (The
    /// pattern admits ASCII only, so the count is also the length in bytes.)
    pub fn validate_vendor_id(vendor_id: &str) -> (r: Result<(), BillingError>)
        ensures
            r is Ok <==> vendor_id_accepted(vendor_id@),
            r is Err ==> r == Err::<(), BillingError>(BillingError::Validation),
    {
        let n = vendor_id.unicode_len();
        if n == 0 || n > MAX_VENDOR_ID_LEN {
            return Err(BillingError::Validation);
        }
        Self::check_pattern(VENDOR_ID_PATTERN, vendor_id)
    }

    /// Accepts an amount of 1 zatoshi up to 1000 coins.
    pub fn validate_amount(amount: u64) -> (r: Result<(), BillingError>)
        ensures
            r is Ok <==> 0 < amount <= MAX_AMOUNT_ZATOSHI,
            r is Err ==> r == Err::<(), BillingError>(BillingError::Validation),
    {
        if amount == 0 || amount > MAX_AMOUNT_ZATOSHI {
            return Err(BillingError::Validation);
        }
        Ok(())
    }

    /// Accepts a rate of 1 zatoshi up to 1000 coins per hour.
    pub fn validate_rate_per_hour(rate: u64) -> (r: Result<(), BillingError>)
        ensures
            r is Ok <==> 0 < rate <= MAX_AMOUNT_ZATOSHI,
            r is Err ==> r == Err::<(), BillingError>(BillingError::Validation),
    {
        if rate == 0 || rate > MAX_AMOUNT_ZATOSHI {
            return Err(BillingError::Validation);
        }
        Ok(())
    }

    /// Accepts 1 to 365 days.
    pub fn validate_duration_days(days: i64) -> (r: Result<(), BillingError>)
        ensures
            r is Ok <==> 1 <= days <= 365,
            r is Err ==> r == Err::<(), BillingError>(BillingError::Validation),
    {
        if days <= 0 {
            return Err(BillingError::Validation);
        }
        if days > 365 {
            return Err(BillingError::Validation);
        }
        Ok(())
    }

    /// The UUID that `text` spells, or `Validation`.
    pub fn validate_uuid(text: &str) -> (r: Result<u128, BillingError>)
        ensures
            match uuid_parse_of(text@) {
                Some(v) => r == Ok::<u128, BillingError>(v),
                None => r == Err::<u128, BillingError>(BillingError::Validation),
            },
    {
        match parse_uuid(text) {
            Some(v) => Ok(v),
            None => Err(BillingError::Validation),
        }
    }

    /// The permission identifier that `text` spells, or `Validation`.
    pub fn validate_permission_id(text: &str) -> (r: Result<u128, BillingError>)
        ensures
            match uuid_parse_of(text@) {
                Some(v) => r == Ok::<u128, BillingError>(v),
                None => r == Err::<u128, BillingError>(BillingError::Validation),
            },
    {
        Self::validate_uuid(text)
    }

    /// Accepts a streaming stretch of at most a day.
    pub fn validate_streaming_duration(duration_seconds: u64) -> (r: Result<(), BillingError>)
        ensures
            r is Ok <==> duration_seconds <= MAX_STREAMING_SECONDS,
            r is Err ==> r == Err::<(), BillingError>(BillingError::Validation),
    {
        if duration_seconds > MAX_STREAMING_SECONDS {
            return Err(BillingError::Validation);
        }
        Ok(())
    }

    /// Keeps the alphanumeric characters and `-`, `_`, `@`, `.`, in order.
    pub fn sanitize_string(input: &str) -> (r: String)
        ensures
            r@ == sanitized(input@),
    {
        let n = input.unicode_len();
        let mut kept: Vec<char> = Vec::new();
        let mut i: usize = 0;
        while i < n
            invariant
                n == input@.len(),
                i <= n,
                kept@ == sanitized(input@.subrange(0, i as int)),
            decreases n - i,
        {
            let c = input.get_char(i);
            assert(input@.subrange(0, i as int + 1).drop_last() =~= input@.subrange(0, i as int));
            if is_alphanumeric(c) || c == '-' || c == '_' || c == '@' || c == '.' {
                kept.push(c);
            }
            i = i + 1;
        }
        assert(input@.subrange(0, n as int) =~= input@);
        string_from_chars(&kept)
    }

    /// The sanitised form of `vendor_id`, if that is a valid vendor identifier.
    pub fn validate_and_sanitize_vendor_id(vendor_id: &str) -> (r: Result<String, BillingError>)
        ensures
            r is Ok <==> vendor_id_accepted(sanitized(vendor_id@)),
            r matches Ok(s) ==> s@ == sanitized(vendor_id@),
            r is Err ==> r == Err::<String, BillingError>(BillingError::Validation),
    {
        let sanitized = Self::sanitize_string(vendor_id);
        match Self::validate_vendor_id(sanitized.as_str()) {
            Ok(()) => Ok(sanitized),
            Err(e) => Err(e),
        }
    }
}

} // verus!
