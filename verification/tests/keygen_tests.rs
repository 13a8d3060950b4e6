use shimmy::json::Json;
use shimmy::json_text::parse_json;
use shimmy::keygen::{
    bearer_token, credentials, read_validation, validation_endpoint, validation_request,
    ConfigError, Credentials, MalformedResponse,
};
use shimmy::vision_license::{authorize, has_vision, Timestamp, UsageStats};

fn read(text: &str) -> Result<shimmy::vision_license::LicenseValidation, MalformedResponse> {
    read_validation(&parse_json(text).unwrap())
}

fn no_usage() -> UsageStats {
    UsageStats { requests_today: 0, requests_this_month: 0, last_reset: Timestamp { secs: 0, nanos: 0 } }
}

#[test]
fn valid_key_is_entitled_to_vision_by_default() {
    let v = read("{\"meta\":{\"valid\":true,\"code\":\"VALID\",\"detail\":\"is valid\"}}").unwrap();
    assert!(v.valid);
    assert!(has_vision(&v));
    assert_eq!(v.expires_at, None);
    assert_eq!(v.entitlements.len(), 2);
    assert_eq!(v.entitlements[0].0, "vision");
    assert_eq!(v.entitlements[0].1, Json::Bool(true));
    assert_eq!(v.entitlements[1].0, "monthly_cap");
    assert_eq!(v.entitlements[1].1.as_u64(), Some(1000));
    assert_eq!(v.entitlements[1].1.as_f64().map(|f| f64::from_bits(f.bits)), Some(1000.0));
    assert_eq!(v.meta.len(), 2);
    assert_eq!(v.meta[0].0, "code");
    assert_eq!(v.meta[0].1, Json::String("VALID".to_string()));
    assert_eq!(v.meta[1].0, "detail");
    assert_eq!(v.meta[1].1, Json::String("is valid".to_string()));
    assert_eq!(authorize(&v, &no_usage()), Ok(()));
}

#[test]
fn invalid_key_gets_the_default_cap_only() {
    let v = read("{\"meta\":{\"valid\":false,\"code\":\"NOT_FOUND\"},\"data\":null}").unwrap();
    assert!(!v.valid);
    assert!(!has_vision(&v));
    assert_eq!(v.entitlements.len(), 1);
    assert_eq!(v.entitlements[0].0, "monthly_cap");
    assert_eq!(v.meta.len(), 1);
}

#[test]
fn listed_entitlements_are_granted() {
    let text = "{\"meta\":{\"valid\":true,\"code\":\"VALID\",\"detail\":null},\"data\":{\"relationships\":{\"entitlements\":{\"data\":[\
        {\"attributes\":{\"code\":\"export\"}},{\"attributes\":{}},{\"attributes\":{\"code\":7}},\"x\",\
        {\"attributes\":{\"code\":\"vision\"}},{\"attributes\":{\"code\":\"export\"}}]}}}}";
    let v = read(text).unwrap();
    let codes: Vec<&str> = v.entitlements.iter().map(|m| m.0.as_str()).collect();
    assert_eq!(codes, vec!["export", "vision", "monthly_cap"]);
    assert!(has_vision(&v));
    assert_eq!(v.meta.len(), 1);
}

#[test]
fn listed_cap_is_a_flag_and_sets_no_limit() {
    let text = "{\"meta\":{\"valid\":true,\"code\":\"VALID\"},\"data\":{\"relationships\":{\"entitlements\":{\"data\":[\
        {\"attributes\":{\"code\":\"monthly_cap\"}}]}}}}";
    let v = read(text).unwrap();
    assert_eq!(v.entitlements.len(), 2);
    let usage = UsageStats { requests_today: 0, requests_this_month: u32::MAX, last_reset: Timestamp { secs: 0, nanos: 0 } };
    assert_eq!(authorize(&v, &usage), Ok(()));
}

#[test]
fn malformed_answers_name_the_part() {
    assert_eq!(read("[1]"), Err(MalformedResponse::Body));
    assert_eq!(read("{}"), Err(MalformedResponse::Meta));
    assert_eq!(read("{\"meta\":7}"), Err(MalformedResponse::Meta));
    assert_eq!(read("{\"meta\":{\"code\":\"X\"}}"), Err(MalformedResponse::Valid));
    assert_eq!(read("{\"meta\":{\"valid\":\"yes\",\"code\":\"X\"}}"), Err(MalformedResponse::Valid));
    assert_eq!(read("{\"meta\":{\"valid\":true}}"), Err(MalformedResponse::Code));
    assert_eq!(read("{\"meta\":{\"valid\":true,\"code\":5}}"), Err(MalformedResponse::Code));
    assert_eq!(
        read("{\"meta\":{\"valid\":true,\"code\":\"X\",\"detail\":5}}"),
        Err(MalformedResponse::Detail)
    );
    assert_eq!(MalformedResponse::Meta.message(), "missing field `meta`");
}

#[test]
fn question_is_framed_for_the_authority() {
    assert_eq!(
        validation_endpoint("acct-1"),
        "https://api.keygen.sh/v1/accounts/acct-1/licenses/actions/validate-key"
    );
    assert_eq!(bearer_token("s3"), "Bearer s3");
    let body = validation_request("THE-KEY");
    assert_eq!(
        body,
        Json::Object(vec![(
            "meta".to_string(),
            Json::Object(vec![("key".to_string(), Json::String("THE-KEY".to_string()))])
        )])
    );
}

#[test]
fn both_credentials_are_needed() {
    assert_eq!(credentials(None, Some("k".to_string())), Err(ConfigError::MissingAccountId));
    assert_eq!(credentials(None, None), Err(ConfigError::MissingAccountId));
    assert_eq!(credentials(Some("a".to_string()), None), Err(ConfigError::MissingApiKey));
    assert_eq!(
        credentials(Some("a".to_string()), Some("k".to_string())),
        Ok(Credentials { account_id: "a".to_string(), api_key: "k".to_string() })
    );
    assert_eq!(
        ConfigError::MissingAccountId.message(),
        "KEYGEN_ACCOUNT_ID environment variable not set"
    );
    assert_eq!(ConfigError::MissingApiKey.message(), "KEYGEN_API_KEY environment variable not set");
}
