//! The licence gate: who may use the vision pipeline, and how much.
//!
//! The licence gate holds two pieces of state, the cached verdict of the licensing
//! authority and the usage counters, and decides on them. It performs no
//! input or output and reads no clock: the current time is an argument, the
//! authority's answer is an argument, and what is to be persisted is there
//! to be read after each step.

use vstd::prelude::*;
use crate::json::{find_member, lookup, Json, JsonNumber};
use crate::text::str_eq;

verus! {

/// An instant: `secs` seconds and `nanos` nanoseconds after the beginning of
/// 1970, UTC. Within a leap second `nanos` is a full second or more, and
/// the instant is counted as falling into the second that follows.
#[derive(Clone, Copy, Debug, PartialEq, Eq)]
pub struct Timestamp {
    pub secs: i64,
    pub nanos: u32,
}

/// Nanoseconds in a second.
pub const NANOS_PER_SECOND: i128 = 1_000_000_000;

/// Nanoseconds in a day.
pub const NANOS_PER_DAY: i128 = 86_400_000_000_000;

/// For how long a cached verdict is trusted: beyond its expiry where the
/// authority gave one, from the moment it was cached where it gave none.
pub const GRACE_NANOS: i128 = 86_400_000_000_000;

/// Length of the window of the monthly counter.
pub const MONTH_NANOS: i128 = 2_592_000_000_000_000;

impl Timestamp {
    /// Nanoseconds since the beginning of 1970.
    pub open spec fn instant(self) -> int {
        self.secs * 1_000_000_000 + self.nanos
    }

    /// Nanoseconds since the beginning of 1970.
    pub fn nanos_since_epoch(&self) -> (n: i128)
        ensures
            n == self.instant(),
    {
        self.secs as i128 * NANOS_PER_SECOND + self.nanos as i128
    }
}

/// The verdict of the licensing authority on a key.
#[derive(Debug, PartialEq)]
pub struct LicenseValidation {
    pub valid: bool,
    /// What the licence entitles to, by entitlement code. A code is looked
    /// up from the front.
    pub entitlements: Vec<(String, Json)>,
    /// When the licence expires, in the notation of RFC 3339.
    pub expires_at: Option<String>,
    pub meta: Vec<(String, Json)>,
}

/// A verdict, with the key it is about and the time at which it was given.
#[derive(Debug, PartialEq)]
pub struct CachedLicense {
    pub key: String,
    pub validation: LicenseValidation,
    pub cached_at: Timestamp,
    pub expires_at: Option<Timestamp>,
}

/// The usage counters.
#[derive(Clone, Copy, Debug, PartialEq, Eq)]
pub struct UsageStats {
    pub requests_today: u32,
    pub requests_this_month: u32,
    pub last_reset: Timestamp,
}

/// Why a request is not served.
#[derive(Debug, PartialEq, Eq)]
pub enum VisionLicenseError {
    MissingLicense,
    /// The authority could not be asked, or did not answer as it should;
    /// with the reason.
    ValidationFailed(String),
    InvalidLicense,
    FeatureNotEnabled,
    UsageLimitExceeded,
}

/// What the licence gate says to a request.
#[derive(Debug, PartialEq, Eq)]
pub enum AccessDecision {
    /// The request may proceed.
    Granted,
    /// The request is refused.
    Denied(VisionLicenseError),
    /// The licence gate holds no verdict that it may use: the authority has to be
    /// asked, and its answer handed to `complete_validation`.
    AskAuthority,
}

/// The state of the licence gate.
#[derive(Debug, PartialEq)]
pub struct VisionLicenseManager {
    pub cache: Option<CachedLicense>,
    pub usage: UsageStats,
}

/// The instant that a text in the notation of RFC 3339 denotes, as
/// `chrono::DateTime::parse_from_rfc3339` reads it; `None` where it reads
/// none.
pub uninterp spec fn rfc3339_instant(text: Seq<char>) -> Option<Timestamp>;

/// `chrono::DateTime::parse_from_rfc3339`, then `timestamp` and
/// `timestamp_subsec_nanos` of what was parsed: `rfc3339_instant` of the
/// text.
#[verifier::external_body]
fn parse_rfc3339(text: &str) -> (r: Option<Timestamp>)
    ensures
        r == rfc3339_instant(text@),
{
    match chrono::DateTime::parse_from_rfc3339(text) {
        Ok(t) => Some(Timestamp { secs: t.timestamp(), nanos: t.timestamp_subsec_nanos() }),
        Err(_) => None,
    }
}

/// Whether a cached verdict may still be used at `now`: until a day after
/// its expiry, or, where it has none, for a day after it was cached.
pub open spec fn fresh(cached: CachedLicense, now: Timestamp) -> bool {
    match cached.expires_at {
        Some(expiry) => now.instant() < expiry.instant() + GRACE_NANOS,
        None => now.instant() - cached.cached_at.instant() < GRACE_NANOS,
    }
}

/// Whether the cache answers for `key` at `now`: it holds a verdict, the
/// verdict is about this key, and it is fresh.
pub open spec fn reusable(cache: Option<CachedLicense>, key: Seq<char>, now: Timestamp) -> bool {
    match cache {
        Some(cached) => cached.key@ == key && fresh(cached, now),
        None => false,
    }
}

/// When a verdict expires: the instant that its `expires_at` denotes.
pub open spec fn expiry_of(validation: LicenseValidation) -> Option<Timestamp> {
    match validation.expires_at {
        Some(text) => rfc3339_instant(text@),
        None => None,
    }
}

/// Whether `cache` holds just the verdict `validation` on `key`, cached at
/// `now`, with the expiry that the verdict itself names.
pub open spec fn holds_verdict(
    cache: Option<CachedLicense>,
    key: Seq<char>,
    validation: LicenseValidation,
    now: Timestamp,
) -> bool {
    cache matches Some(cached) && cached.key@ == key && cached.validation == validation
        && cached.cached_at == now && cached.expires_at == expiry_of(validation)
}

/// Whether a verdict entitles to vision: the entitlement `vision` is there
/// and is `true`.
pub open spec fn vision_entitled(validation: LicenseValidation) -> bool {
    match lookup(validation.entitlements@, "vision"@) {
        Some(v) => v.boolean() == Some(true),
        None => false,
    }
}

/// The monthly cap that a licence carries: the entitlement `monthly_cap`,
/// where it is there and is a number.
pub open spec fn monthly_cap(validation: LicenseValidation) -> Option<JsonNumber> {
    match lookup(validation.entitlements@, "monthly_cap"@) {
        Some(v) => v.number(),
        None => None,
    }
}

/// Whether the month's requests have reached the cap of a licence: it has
/// one, and the cap is at most the number of requests made. A licence
/// without a cap has no limit.
pub open spec fn cap_reached(validation: LicenseValidation, used: u32) -> bool {
    match monthly_cap(validation) {
        Some(cap) => cap.at_most(used),
        None => false,
    }
}

/// What a verdict means for a request, `used` requests into the month.
pub open spec fn verdict_on(validation: LicenseValidation, used: u32) -> Result<
    (),
    VisionLicenseError,
> {
    if !validation.valid {
        Err(VisionLicenseError::InvalidLicense)
    } else if !vision_entitled(validation) {
        Err(VisionLicenseError::FeatureNotEnabled)
    } else if cap_reached(validation, used) {
        Err(VisionLicenseError::UsageLimitExceeded)
    } else {
        Ok(())
    }
}

/// What the licence gate says to a request with the key `key` at `now`.
pub open spec fn decision(
    gate: VisionLicenseManager,
    key: Option<Seq<char>>,
    dev_mode: bool,
    now: Timestamp,
) -> AccessDecision {
    if dev_mode {
        AccessDecision::Granted
    } else {
        match key {
            None => AccessDecision::Denied(VisionLicenseError::MissingLicense),
            Some(k) => if reusable(gate.cache, k, now) {
                match verdict_on(gate.cache->0.validation, gate.usage.requests_this_month) {
                    Ok(_) => AccessDecision::Granted,
                    Err(e) => AccessDecision::Denied(e),
                }
            } else {
                AccessDecision::AskAuthority
            },
        }
    }
}

/// The daily counter after one more request at `now`: it starts again from
/// zero where a day or more has passed since the last reset.
pub open spec fn next_today(usage: UsageStats, now: Timestamp) -> int {
    if now.instant() - usage.last_reset.instant() >= NANOS_PER_DAY {
        1
    } else {
        usage.requests_today + 1
    }
}

/// The monthly counter after one more request at `now`: it starts again
/// from zero where thirty days or more have passed since the last reset.
pub open spec fn next_month(usage: UsageStats, now: Timestamp) -> int {
    if now.instant() - usage.last_reset.instant() >= MONTH_NANOS {
        1
    } else {
        usage.requests_this_month + 1
    }
}

/// The time of the last reset after a request at `now`: `now` where the
/// monthly counter started again.
pub open spec fn next_reset(usage: UsageStats, now: Timestamp) -> Timestamp {
    if now.instant() - usage.last_reset.instant() >= MONTH_NANOS {
        now
    } else {
        usage.last_reset
    }
}

impl UsageStats {
    /// Whether one more request at `now` can be counted: neither counter is
    /// at the end of its range.
    pub open spec fn countable(self, now: Timestamp) -> bool {
        next_today(self, now) <= u32::MAX && next_month(self, now) <= u32::MAX
    }

    /// Whether one more request at `now` can be counted.
    pub fn can_record(&self, now: Timestamp) -> (r: bool)
        ensures
            r == self.countable(now),
    {
        let elapsed: i128 = now.nanos_since_epoch() - self.last_reset.nanos_since_epoch();
        (elapsed >= NANOS_PER_DAY || self.requests_today < u32::MAX) && (elapsed >= MONTH_NANOS
            || self.requests_this_month < u32::MAX)
    }
}

/// Whether a verdict entitles to vision.
pub fn has_vision(validation: &LicenseValidation) -> (r: bool)
    ensures
        r == vision_entitled(*validation),
{
    match find_member(&validation.entitlements, "vision") {
        Some(v) => match v.as_bool() {
            Some(b) => b,
            None => false,
        },
        None => false,
    }
}

/// What a verdict means for a request, given the usage so far.
pub fn authorize(validation: &LicenseValidation, usage: &UsageStats) -> (r: Result<
    (),
    VisionLicenseError,
>)
    ensures
        r == verdict_on(*validation, usage.requests_this_month),
{
    if !validation.valid {
        return Err(VisionLicenseError::InvalidLicense);
    }
    if !has_vision(validation) {
        return Err(VisionLicenseError::FeatureNotEnabled);
    }
    match find_member(&validation.entitlements, "monthly_cap") {
        Some(v) => match v.as_number() {
            Some(cap) => {
                if cap.is_at_most(usage.requests_this_month) {
                    return Err(VisionLicenseError::UsageLimitExceeded);
                }
            },
            None => {},
        },
        None => {},
    }
    Ok(())
}

impl CachedLicense {
    /// Whether the verdict may still be used at `now`.
    pub fn is_fresh(&self, now: Timestamp) -> (r: bool)
        ensures
            r == fresh(*self, now),
    {
        match self.expires_at {
            Some(expiry) => now.nanos_since_epoch() < expiry.nanos_since_epoch() + GRACE_NANOS,
            None => now.nanos_since_epoch() - self.cached_at.nanos_since_epoch() < GRACE_NANOS,
        }
    }
}

impl VisionLicenseManager {
    /// A gate that holds no verdict and has counted nothing.
    pub fn new(now: Timestamp) -> (gate: VisionLicenseManager)
        ensures
            gate.cache is None,
            gate.usage == (UsageStats { requests_today: 0, requests_this_month: 0, last_reset: now }),
    {
        VisionLicenseManager {
            cache: None,
            usage: UsageStats { requests_today: 0, requests_this_month: 0, last_reset: now },
        }
    }

    /// Takes over what was persisted: each of the two pieces of state is
    /// replaced where one was read, and kept where none was.
    pub fn load_cache(&mut self, cached: Option<CachedLicense>, usage: Option<UsageStats>)
        ensures
            final(self).cache == if cached is Some {
                cached
            } else {
                old(self).cache
            },
            final(self).usage == if usage is Some {
                usage->0
            } else {
                old(self).usage
            },
    {
        if cached.is_some() {
            self.cache = cached;
        }
        match usage {
            Some(u) => {
                self.usage = u;
            },
            None => {},
        }
    }

    /// The verdict on `license_key` that the cache holds, where the cache
    /// answers for this key at `now`; `None` where the authority has to be
    /// asked.
    pub fn validate_license(&self, license_key: &str, now: Timestamp) -> (r: Option<
        &LicenseValidation,
    >)
        ensures
            match r {
                Some(v) => reusable(self.cache, license_key@, now) && *v
                    == self.cache->0.validation,
                None => !reusable(self.cache, license_key@, now),
            },
    {
        match &self.cache {
            Some(cached) => {
                if str_eq(cached.key.as_str(), license_key) && cached.is_fresh(now) {
                    Some(&cached.validation)
                } else {
                    None
                }
            },
            None => None,
        }
    }

    /// Puts the authority's verdict on `license_key` into the cache, in
    /// place of whatever was there. The counters stay.
    pub fn store_validation(
        &mut self,
        license_key: &str,
        validation: LicenseValidation,
        now: Timestamp,
    )
        ensures
            final(self).usage == old(self).usage,
            holds_verdict(final(self).cache, license_key@, validation, now),
    {
        let expires_at = match &validation.expires_at {
            Some(text) => parse_rfc3339(text.as_str()),
            None => None,
        };
        self.cache = Some(
            CachedLicense {
                key: String::from_str(license_key),
                validation,
                cached_at: now,
                expires_at,
            },
        );
    }

    /// What the licence gate says to a request. With `dev_mode` every request is
    /// granted and nothing is looked at.
    pub fn check_vision_access(&self, license_key: Option<&str>, dev_mode: bool, now: Timestamp)
        -> (r: AccessDecision)
        ensures
            r == decision(
                *self,
                match license_key {
                    Some(k) => Some(k@),
                    None => None,
                },
                dev_mode,
                now,
            ),
    {
        if dev_mode {
            return AccessDecision::Granted;
        }
        let key = match license_key {
            Some(key) => key,
            None => {
                return AccessDecision::Denied(VisionLicenseError::MissingLicense);
            },
        };
        match self.validate_license(key, now) {
            Some(validation) => match authorize(validation, &self.usage) {
                Ok(()) => AccessDecision::Granted,
                Err(e) => AccessDecision::Denied(e),
            },
            None => AccessDecision::AskAuthority,
        }
    }

    /// Takes the authority's answer to a question about `license_key`. A
    /// failure to get an answer refuses the request and leaves the licence gate as
    /// it was. A verdict is put into the cache and then decides.
    pub fn complete_validation(
        &mut self,
        license_key: &str,
        answer: Result<LicenseValidation, String>,
        now: Timestamp,
    ) -> (r: Result<(), VisionLicenseError>)
        ensures
            final(self).usage == old(self).usage,
            match answer {
                Err(reason) => {
                    &&& *final(self) == *old(self)
                    &&& r == Err::<(), VisionLicenseError>(
                        VisionLicenseError::ValidationFailed(reason),
                    )
                },
                Ok(validation) => {
                    &&& r == verdict_on(validation, old(self).usage.requests_this_month)
                    &&& holds_verdict(final(self).cache, license_key@, validation, now)
                },
            },
    {
        match answer {
            Err(reason) => Err(VisionLicenseError::ValidationFailed(reason)),
            Ok(validation) => {
                let r = authorize(&validation, &self.usage);
                self.store_validation(license_key, validation, now);
                r
            },
        }
    }

    /// Counts one request at `now`.
    pub fn record_usage(&mut self, now: Timestamp)
        requires
            old(self).usage.countable(now),
        ensures
            final(self).cache == old(self).cache,
            final(self).usage.requests_today == next_today(old(self).usage, now),
            final(self).usage.requests_this_month == next_month(old(self).usage, now),
            final(self).usage.last_reset == next_reset(old(self).usage, now),
    {
        let elapsed: i128 = now.nanos_since_epoch() - self.usage.last_reset.nanos_since_epoch();
        if elapsed >= NANOS_PER_DAY {
            self.usage.requests_today = 0;
        }
        if elapsed >= MONTH_NANOS {
            self.usage.requests_this_month = 0;
            self.usage.last_reset = now;
        }
        self.usage.requests_today = self.usage.requests_today + 1;
        self.usage.requests_this_month = self.usage.requests_this_month + 1;
    }
}

impl VisionLicenseError {
    /// The status with which the error is answered over HTTP.
    pub open spec fn status(self) -> u16 {
        match self {
            VisionLicenseError::MissingLicense => 402,
            VisionLicenseError::ValidationFailed(_) => 500,
            VisionLicenseError::InvalidLicense => 403,
            VisionLicenseError::FeatureNotEnabled => 403,
            VisionLicenseError::UsageLimitExceeded => 402,
        }
    }

    /// The code by which a program tells the error.
    pub open spec fn code_text(self) -> Seq<char> {
        match self {
            VisionLicenseError::MissingLicense => "MISSING_LICENSE"@,
            VisionLicenseError::ValidationFailed(_) => "VALIDATION_ERROR"@,
            VisionLicenseError::InvalidLicense => "INVALID_LICENSE"@,
            VisionLicenseError::FeatureNotEnabled => "FEATURE_DISABLED"@,
            VisionLicenseError::UsageLimitExceeded => "USAGE_LIMIT_EXCEEDED"@,
        }
    }

    /// What the error says to a reader.
    pub open spec fn message_text(self) -> Seq<char> {
        match self {
            VisionLicenseError::MissingLicense => "No license key provided"@,
            VisionLicenseError::ValidationFailed(reason) => "License validation failed: "@
                + reason@,
            VisionLicenseError::InvalidLicense => "Invalid or expired license"@,
            VisionLicenseError::FeatureNotEnabled => "Vision feature not enabled for this license"@,
            VisionLicenseError::UsageLimitExceeded => "Monthly usage limit exceeded"@,
        }
    }

    /// The status with which the error is answered over HTTP: payment
    /// required, forbidden, or internal error.
    pub fn to_status_code(&self) -> (status: u16)
        ensures
            status == self.status(),
    {
        match self {
            VisionLicenseError::MissingLicense => 402,
            VisionLicenseError::ValidationFailed(_) => 500,
            VisionLicenseError::InvalidLicense => 403,
            VisionLicenseError::FeatureNotEnabled => 403,
            VisionLicenseError::UsageLimitExceeded => 402,
        }
    }

    /// The code by which a program tells the error.
    pub fn code(&self) -> (code: &'static str)
        ensures
            code@ == self.code_text(),
    {
        match self {
            VisionLicenseError::MissingLicense => "MISSING_LICENSE",
            VisionLicenseError::ValidationFailed(_) => "VALIDATION_ERROR",
            VisionLicenseError::InvalidLicense => "INVALID_LICENSE",
            VisionLicenseError::FeatureNotEnabled => "FEATURE_DISABLED",
            VisionLicenseError::UsageLimitExceeded => "USAGE_LIMIT_EXCEEDED",
        }
    }

    /// What the error says to a reader.
    pub fn message(&self) -> (message: String)
        ensures
            message@ == self.message_text(),
    {
        match self {
            VisionLicenseError::MissingLicense => String::from_str("No license key provided"),
            VisionLicenseError::ValidationFailed(reason) => {
                let mut s = String::from_str("License validation failed: ");
                s.append(reason.as_str());
                s
            },
            VisionLicenseError::InvalidLicense => String::from_str("Invalid or expired license"),
            VisionLicenseError::FeatureNotEnabled => String::from_str(
                "Vision feature not enabled for this license",
            ),
            VisionLicenseError::UsageLimitExceeded => String::from_str(
                "Monthly usage limit exceeded",
            ),
        }
    }

    /// The error as a JSON object with the members `code`, `error` and
    /// `message`, in this order.
    pub fn to_json_error(&self) -> (body: Json)
        ensures
            body.members() is Some,
            body.members()->0.len() == 3,
            body.text_field("code"@) == Some(self.code_text()),
            body.text_field("error"@) == Some("License validation failed"@),
            body.text_field("message"@) == Some(self.message_text()),
    {
        let mut members: Vec<(String, Json)> = Vec::new();
        members.push((String::from_str("code"), Json::String(String::from_str(self.code()))));
        members.push(
            (
                String::from_str("error"),
                Json::String(String::from_str("License validation failed")),
            ),
        );
        members.push((String::from_str("message"), Json::String(self.message())));
        proof {
            reveal_strlit("code");
            reveal_strlit("error");
            reveal_strlit("message");
            let m = members@;
            assert("error"@.len() != "code"@.len());
            assert("message"@.len() != "code"@.len());
            assert("message"@.len() != "error"@.len());
            assert(m.drop_first()[0] == m[1]);
            assert(m.drop_first().drop_first()[0] == m[2]);
            assert(crate::json::member_index(m, "code"@) == Some(0int));
            assert(crate::json::member_index(m.drop_first(), "error"@) == Some(0int));
            assert(crate::json::member_index(m, "error"@) == Some(1int));
            assert(crate::json::member_index(m.drop_first().drop_first(), "message"@) == Some(
                0int,
            ));
            assert(crate::json::member_index(m.drop_first(), "message"@) == Some(1int));
            assert(crate::json::member_index(m, "message"@) == Some(2int));
        }
        Json::Object(members)
    }
}

/// The monthly cap is enforced at the request that reaches it. A licence
/// that is valid and entitled to vision, with a cap of `cap` requests, is
/// served `cap - 1` requests into the month; counting that request brings
/// the counter to `cap`; and from then on the verdict is that the limit is
/// exceeded.
///
/// The window of the monthly counter must not end between the two requests:
/// where thirty days have passed since the last reset, counting starts
/// again from one.
pub proof fn lemma_cap_is_enforced(
    validation: LicenseValidation,
    usage: UsageStats,
    now: Timestamp,
    cap: u64,
)
    requires
        validation.valid,
        vision_entitled(validation),
        monthly_cap(validation) matches Some(number) && number.unsigned == Some(cap),
        usage.requests_this_month == cap - 1,
        usage.countable(now),
        now.instant() - usage.last_reset.instant() < MONTH_NANOS,
    ensures
        verdict_on(validation, usage.requests_this_month) is Ok,
        next_month(usage, now) == cap,
        verdict_on(validation, next_month(usage, now) as u32) == Err::<(), VisionLicenseError>(
            VisionLicenseError::UsageLimitExceeded,
        ),
{
}

/// Once the authority's verdict on a key is in the cache, the licence gate answers
/// for this key without the authority for as long as the verdict is fresh:
/// for a day after it was cached where it names no expiry, until a day
/// after its expiry where it names one. However many requests arrive in
/// that time, the authority is asked about none of them.
pub proof fn lemma_cached_verdict_answers(
    gate: VisionLicenseManager,
    key: Seq<char>,
    validation: LicenseValidation,
    cached_at: Timestamp,
    now: Timestamp,
)
    requires
        holds_verdict(gate.cache, key, validation, cached_at),
        match expiry_of(validation) {
            Some(expiry) => now.instant() < expiry.instant() + GRACE_NANOS,
            None => now.instant() - cached_at.instant() < GRACE_NANOS,
        },
    ensures
        reusable(gate.cache, key, now),
        decision(gate, Some(key), false, now) != AccessDecision::AskAuthority,
{
}

/// A verdict without expiry is used for less than a day after it was
/// cached, and not a moment longer.
pub proof fn lemma_grace_period(cached: CachedLicense, now: Timestamp)
    requires
        cached.expires_at is None,
    ensures
        fresh(cached, now) <==> now.instant() < cached.cached_at.instant()
            + 24 * 3600 * 1_000_000_000,
{
}

/// Licence check of a build without vision support: every key is refused.
pub fn check_vision_license(_license: Option<&str>) -> (r: Result<(), &'static str>)
    ensures
        r is Err,
        r->Err_0@ == "Vision feature not enabled"@,
{
    Err("Vision feature not enabled")
}

} // verus!
