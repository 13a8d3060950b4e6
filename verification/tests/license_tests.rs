use shimmy::json::{Float64, Json, JsonNumber};
use shimmy::vision_license::{
    authorize, check_vision_license, has_vision, AccessDecision, CachedLicense,
    LicenseValidation, Timestamp, UsageStats, VisionLicenseError, VisionLicenseManager,
};

const HOUR: i64 = 3600;
const DAY: i64 = 86400;

fn at(secs: i64) -> Timestamp {
    Timestamp { secs, nanos: 0 }
}

fn whole(n: u64) -> Json {
    Json::Number(JsonNumber {
        unsigned: Some(n),
        signed: Some(n as i64),
        float: Some(Float64 { bits: (n as f64).to_bits() }),
    })
}

fn verdict(valid: bool, vision: Option<Json>, cap: Option<Json>) -> LicenseValidation {
    let mut entitlements: Vec<(String, Json)> = Vec::new();
    if let Some(v) = vision {
        entitlements.push(("vision".to_string(), v));
    }
    if let Some(c) = cap {
        entitlements.push(("monthly_cap".to_string(), c));
    }
    LicenseValidation { valid, entitlements, expires_at: None, meta: Vec::new() }
}

fn good(cap: u64) -> LicenseValidation {
    verdict(true, Some(Json::Bool(true)), Some(whole(cap)))
}

fn gate_with(key: &str, validation: LicenseValidation, cached_at: Timestamp) -> VisionLicenseManager {
    let mut gate = VisionLicenseManager::new(cached_at);
    gate.store_validation(key, validation, cached_at);
    gate
}

#[test]
fn cached_verdict_is_reused_for_a_day() {
    let t0 = at(1_700_000_000);
    let gate = gate_with("KEY", good(1000), t0);
    assert!(gate.validate_license("KEY", at(t0.secs + 23 * HOUR)).is_some());
    assert!(gate.validate_license("KEY", at(t0.secs + 25 * HOUR)).is_none());
    assert!(gate.validate_license("KEY", Timestamp { secs: t0.secs + 24 * HOUR - 1, nanos: 999_999_999 }).is_some());
    assert!(gate.validate_license("KEY", at(t0.secs + 24 * HOUR)).is_none());
    assert_eq!(
        gate.check_vision_access(Some("KEY"), false, at(t0.secs + 23 * HOUR)),
        AccessDecision::Granted
    );
    assert_eq!(
        gate.check_vision_access(Some("KEY"), false, at(t0.secs + 25 * HOUR)),
        AccessDecision::AskAuthority
    );
}

#[test]
fn cached_verdict_is_for_one_key_only() {
    let t0 = at(1_700_000_000);
    let gate = gate_with("KEY", good(1000), t0);
    assert!(gate.validate_license("OTHER", at(t0.secs + 1)).is_none());
    assert_eq!(
        gate.check_vision_access(Some("OTHER"), false, at(t0.secs + 1)),
        AccessDecision::AskAuthority
    );
    assert_eq!(
        VisionLicenseManager::new(t0).check_vision_access(Some("KEY"), false, t0),
        AccessDecision::AskAuthority
    );
}

#[test]
fn expiry_extends_the_cache_by_a_day_of_grace() {
    let t0 = at(1_700_000_000);
    let mut v = good(1000);
    v.expires_at = Some("2023-12-01T00:00:00Z".to_string());
    let gate = gate_with("KEY", v, t0);
    let expiry: i64 = 1_701_388_800;
    assert_eq!(gate.cache.as_ref().unwrap().expires_at, Some(at(expiry)));
    assert!(gate.validate_license("KEY", at(expiry + DAY - 1)).is_some());
    assert!(gate.validate_license("KEY", at(expiry + DAY)).is_none());
    assert!(gate.validate_license("KEY", at(t0.secs + 3 * DAY)).is_some());
}

#[test]
fn expiry_that_cannot_be_read_counts_as_none() {
    let t0 = at(1_700_000_000);
    let mut v = good(1000);
    v.expires_at = Some("next tuesday".to_string());
    let gate = gate_with("KEY", v, t0);
    assert_eq!(gate.cache.as_ref().unwrap().expires_at, None);
    assert_eq!(gate.cache.as_ref().unwrap().cached_at, t0);
    assert_eq!(gate.cache.as_ref().unwrap().key, "KEY");
    assert!(gate.validate_license("KEY", at(t0.secs + 25 * HOUR)).is_none());
}

#[test]
fn offsets_in_expiry_are_honoured() {
    let t0 = at(0);
    let mut v = good(1);
    v.expires_at = Some("1970-01-02T01:00:00.5+01:00".to_string());
    let gate = gate_with("K", v, t0);
    assert_eq!(
        gate.cache.as_ref().unwrap().expires_at,
        Some(Timestamp { secs: DAY, nanos: 500_000_000 })
    );
}

#[test]
fn each_refusal_has_its_reason() {
    let usage = UsageStats { requests_today: 0, requests_this_month: 5, last_reset: at(0) };
    assert_eq!(authorize(&good(6), &usage), Ok(()));
    assert_eq!(authorize(&good(5), &usage), Err(VisionLicenseError::UsageLimitExceeded));
    assert_eq!(authorize(&good(0), &usage), Err(VisionLicenseError::UsageLimitExceeded));
    assert_eq!(
        authorize(&verdict(false, Some(Json::Bool(true)), None), &usage),
        Err(VisionLicenseError::InvalidLicense)
    );
    assert_eq!(
        authorize(&verdict(true, None, None), &usage),
        Err(VisionLicenseError::FeatureNotEnabled)
    );
    assert_eq!(
        authorize(&verdict(true, Some(Json::Bool(false)), None), &usage),
        Err(VisionLicenseError::FeatureNotEnabled)
    );
    assert_eq!(
        authorize(&verdict(true, Some(Json::String("yes".to_string())), None), &usage),
        Err(VisionLicenseError::FeatureNotEnabled)
    );
    assert_eq!(authorize(&verdict(true, Some(Json::Bool(true)), None), &usage), Ok(()));
    assert_eq!(
        authorize(&verdict(true, Some(Json::Bool(true)), Some(Json::String("5".to_string()))), &usage),
        Ok(())
    );
    assert!(has_vision(&good(1)));
    assert!(!has_vision(&verdict(true, None, None)));
}

#[test]
fn cap_above_the_counter_range_never_bites() {
    let usage = UsageStats { requests_today: 0, requests_this_month: u32::MAX, last_reset: at(0) };
    assert_eq!(authorize(&good(u64::from(u32::MAX) + 1), &usage), Ok(()));
    assert_eq!(authorize(&good(u64::from(u32::MAX)), &usage), Err(VisionLicenseError::UsageLimitExceeded));
}

#[test]
fn missing_key_and_dev_mode() {
    let gate = VisionLicenseManager::new(at(0));
    assert_eq!(
        gate.check_vision_access(None, false, at(0)),
        AccessDecision::Denied(VisionLicenseError::MissingLicense)
    );
    assert_eq!(gate.check_vision_access(None, true, at(0)), AccessDecision::Granted);
    assert_eq!(gate.check_vision_access(Some("K"), true, at(0)), AccessDecision::Granted);
}

#[test]
fn request_that_reaches_the_cap_is_the_last() {
    let t0 = at(1_700_000_000);
    let cap: u64 = 3;
    let mut gate = gate_with("KEY", good(cap), t0);
    gate.usage.requests_this_month = 2;
    gate.usage.requests_today = 2;
    assert_eq!(gate.check_vision_access(Some("KEY"), false, at(t0.secs + 10)), AccessDecision::Granted);
    gate.record_usage(at(t0.secs + 10));
    assert_eq!(gate.usage.requests_this_month, 3);
    assert_eq!(
        gate.check_vision_access(Some("KEY"), false, at(t0.secs + 11)),
        AccessDecision::Denied(VisionLicenseError::UsageLimitExceeded)
    );
}

#[test]
fn counters_start_again_at_their_windows() {
    let t0 = at(1_700_000_000);
    let mut gate = VisionLicenseManager::new(t0);
    assert_eq!(gate.usage, UsageStats { requests_today: 0, requests_this_month: 0, last_reset: t0 });
    gate.record_usage(at(t0.secs + 1));
    gate.record_usage(at(t0.secs + 2));
    assert_eq!(gate.usage.requests_today, 2);
    assert_eq!(gate.usage.requests_this_month, 2);
    gate.record_usage(at(t0.secs + DAY - 1));
    assert_eq!(gate.usage.requests_today, 3);
    gate.record_usage(at(t0.secs + DAY));
    assert_eq!(gate.usage.requests_today, 1);
    assert_eq!(gate.usage.requests_this_month, 4);
    assert_eq!(gate.usage.last_reset, t0);
    // The last reset stays until the month is over, so from the second day on every request
    // begins the day again.
    gate.record_usage(at(t0.secs + DAY + 5));
    assert_eq!(gate.usage.requests_today, 1);
    assert_eq!(gate.usage.requests_this_month, 5);
    gate.record_usage(at(t0.secs + 30 * DAY - 1));
    assert_eq!(gate.usage.requests_this_month, 6);
    let later = at(t0.secs + 30 * DAY);
    gate.record_usage(later);
    assert_eq!(gate.usage, UsageStats { requests_today: 1, requests_this_month: 1, last_reset: later });
}

#[test]
fn full_counter_cannot_be_advanced() {
    let t0 = at(0);
    let full = UsageStats { requests_today: u32::MAX, requests_this_month: 1, last_reset: t0 };
    assert!(!full.can_record(at(5)));
    assert!(full.can_record(at(DAY)));
    let month_full = UsageStats { requests_today: 1, requests_this_month: u32::MAX, last_reset: t0 };
    assert!(!month_full.can_record(at(DAY)));
    assert!(month_full.can_record(at(30 * DAY)));
}

#[test]
fn clock_that_runs_backwards_resets_nothing() {
    let t0 = at(1_000_000);
    let mut gate = VisionLicenseManager::new(t0);
    gate.record_usage(at(0));
    gate.record_usage(at(-5 * DAY));
    assert_eq!(gate.usage, UsageStats { requests_today: 2, requests_this_month: 2, last_reset: t0 });
}

#[test]
fn answer_of_the_authority_is_cached_then_judged() {
    let t0 = at(1_700_000_000);
    let mut gate = VisionLicenseManager::new(t0);
    assert_eq!(gate.complete_validation("KEY", Ok(good(10)), t0), Ok(()));
    assert_eq!(gate.cache.as_ref().unwrap().key, "KEY");
    assert_eq!(gate.cache.as_ref().unwrap().validation, good(10));
    assert_eq!(
        gate.complete_validation("BAD", Ok(verdict(false, None, None)), t0),
        Err(VisionLicenseError::InvalidLicense)
    );
    assert_eq!(gate.cache.as_ref().unwrap().key, "BAD");
    assert_eq!(
        gate.check_vision_access(Some("BAD"), false, at(t0.secs + 1)),
        AccessDecision::Denied(VisionLicenseError::InvalidLicense)
    );
    let before = gate.cache.as_ref().unwrap().key.clone();
    assert_eq!(
        gate.complete_validation("KEY", Err("connection refused".to_string()), t0),
        Err(VisionLicenseError::ValidationFailed("connection refused".to_string()))
    );
    assert_eq!(gate.cache.as_ref().unwrap().key, before);
}

#[test]
fn persisted_state_is_taken_over() {
    let t0 = at(100);
    let mut gate = VisionLicenseManager::new(t0);
    let usage = UsageStats { requests_today: 4, requests_this_month: 40, last_reset: at(50) };
    gate.load_cache(None, Some(usage));
    assert_eq!(gate.usage, usage);
    assert_eq!(gate.cache, None);
    let cached = CachedLicense { key: "K".to_string(), validation: good(5), cached_at: at(60), expires_at: None };
    gate.load_cache(Some(cached), None);
    assert_eq!(gate.usage, usage);
    assert_eq!(gate.cache.as_ref().unwrap().key, "K");
    gate.load_cache(None, None);
    assert_eq!(gate.cache.as_ref().unwrap().key, "K");
}

#[test]
fn errors_map_to_status_code_and_text() {
    let all: Vec<(VisionLicenseError, u16, &str, &str)> = vec![
        (VisionLicenseError::MissingLicense, 402, "MISSING_LICENSE", "No license key provided"),
        (
            VisionLicenseError::ValidationFailed("timeout".to_string()),
            500,
            "VALIDATION_ERROR",
            "License validation failed: timeout",
        ),
        (VisionLicenseError::InvalidLicense, 403, "INVALID_LICENSE", "Invalid or expired license"),
        (
            VisionLicenseError::FeatureNotEnabled,
            403,
            "FEATURE_DISABLED",
            "Vision feature not enabled for this license",
        ),
        (
            VisionLicenseError::UsageLimitExceeded,
            402,
            "USAGE_LIMIT_EXCEEDED",
            "Monthly usage limit exceeded",
        ),
    ];
    for (error, status, code, message) in all {
        assert_eq!(error.to_status_code(), status);
        assert_eq!(error.code(), code);
        assert_eq!(error.message(), message);
        let body = error.to_json_error();
        assert_eq!(body.as_object().unwrap().len(), 3);
        assert_eq!(body.get("error").and_then(|v| v.as_str()), Some("License validation failed"));
        assert_eq!(body.get("code").and_then(|v| v.as_str()), Some(code));
        assert_eq!(body.get("message").and_then(|v| v.as_str()), Some(message));
    }
}

#[test]
fn build_without_vision_refuses_every_key() {
    assert_eq!(check_vision_license(None), Err("Vision feature not enabled"));
    assert_eq!(check_vision_license(Some("KEY")), Err("Vision feature not enabled"));
}

#[test]
fn instants_count_nanoseconds() {
    assert_eq!(Timestamp { secs: 1, nanos: 5 }.nanos_since_epoch(), 1_000_000_005);
    assert_eq!(Timestamp { secs: -1, nanos: 5 }.nanos_since_epoch(), -999_999_995);
    assert_eq!(
        Timestamp { secs: i64::MAX, nanos: u32::MAX }.nanos_since_epoch(),
        i128::from(i64::MAX) * 1_000_000_000 + i128::from(u32::MAX)
    );
}

fn number(text: &str) -> Json {
    shimmy::json_text::parse_json(text).unwrap()
}

#[test]
fn cap_is_compared_as_the_number_it_is() {
    let at_zero = UsageStats { requests_today: 0, requests_this_month: 0, last_reset: at(0) };
    let at_two = UsageStats { requests_today: 0, requests_this_month: 2, last_reset: at(0) };
    let at_three = UsageStats { requests_today: 0, requests_this_month: 3, last_reset: at(0) };
    let capped = |text: &str| verdict(true, Some(Json::Bool(true)), Some(number(text)));
    let exceeded = Err(VisionLicenseError::UsageLimitExceeded);
    assert_eq!(authorize(&capped("-1"), &at_zero), exceeded);
    assert_eq!(authorize(&capped("-0.5"), &at_zero), exceeded);
    assert_eq!(authorize(&capped("-0.0"), &at_zero), exceeded);
    assert_eq!(authorize(&capped("0.0"), &at_zero), exceeded);
    assert_eq!(authorize(&capped("0.5"), &at_zero), Ok(()));
    assert_eq!(authorize(&capped("2.5"), &at_two), Ok(()));
    assert_eq!(authorize(&capped("2.5"), &at_three), exceeded);
    assert_eq!(authorize(&capped("2.0"), &at_two), exceeded);
    assert_eq!(authorize(&capped("3.0000000000000004"), &at_three), Ok(()));
    assert_eq!(authorize(&capped("3e0"), &at_three), exceeded);
    assert_eq!(authorize(&capped("1e300"), &at_three), Ok(()));
    assert_eq!(authorize(&capped("5e-324"), &at_zero), Ok(()));
    assert_eq!(authorize(&capped("3"), &at_two), Ok(()));
    assert_eq!(authorize(&capped("3"), &at_three), exceeded);
    assert_eq!(authorize(&capped("null"), &at_three), Ok(()));
    assert_eq!(authorize(&capped("true"), &at_three), Ok(()));
}

#[test]
fn whole_numbers_have_the_bits_of_their_doubles() {
    let samples: Vec<u32> = vec![0, 1, 2, 3, 4, 5, 7, 8, 1000, 65535, 65536, 16777217, u32::MAX - 1, u32::MAX];
    for n in samples {
        assert_eq!(shimmy::json::Float64::of_u32(n).bits, f64::from(n).to_bits(), "{}", n);
    }
    let mut n: u32 = 1;
    while n < 2_000_000 {
        assert_eq!(shimmy::json::Float64::of_u32(n).bits, f64::from(n).to_bits(), "{}", n);
        n += 7919;
    }
    let number = JsonNumber { unsigned: None, signed: None, float: Some(Float64 { bits: 2.5f64.to_bits() }) };
    assert!(!number.is_at_most(2));
    assert!(number.is_at_most(3));
    assert!(Float64 { bits: 1.0f64.to_bits() }.is_in_unit_range());
    assert!(!Float64 { bits: f64::NAN.to_bits() }.is_in_unit_range());
}
