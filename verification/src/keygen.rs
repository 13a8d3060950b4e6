//! The exchange with the licensing authority: what is asked of it, and what
//! its answer means. Sending the question is the caller's part.

use vstd::prelude::*;
use crate::decode::{at, collect_some, lemma_collect_some_step};
use crate::json::{
    as_map, distinct_keys, find_member, lemma_distinct_push, lemma_lookup_push,
    lemma_member_index, lookup, member_index, Float64, Json, JsonNumber,
};
use crate::text::concat2;
use crate::vision_license::{vision_entitled, LicenseValidation};

verus! {

/// The monthly cap of a licence for which the authority names none.
pub const DEFAULT_MONTHLY_CAP: u64 = 1000;

/// Bit pattern of the double 1000.
pub const DEFAULT_MONTHLY_CAP_BITS: u64 = 0x408F_4000_0000_0000;

/// What is needed to ask the authority.
#[derive(Debug, PartialEq, Eq)]
pub struct Credentials {
    pub account_id: String,
    pub api_key: String,
}

/// A credential that is not configured.
#[derive(Clone, Copy, Debug, PartialEq, Eq)]
pub enum ConfigError {
    MissingAccountId,
    MissingApiKey,
}

/// The part of the authority's answer that is not as it should be.
#[derive(Clone, Copy, Debug, PartialEq, Eq)]
pub enum MalformedResponse {
    /// The answer is not an object.
    Body,
    /// `meta` is missing or is not an object.
    Meta,
    /// `meta.valid` is missing or is not a boolean.
    Valid,
    /// `meta.code` is missing or is not a string.
    Code,
    /// `meta.detail` is there and is neither a string nor `null`.
    Detail,
}

/// The JSON number 1000.
pub open spec fn default_cap_value() -> Json {
    Json::Number(
        JsonNumber {
            unsigned: Some(DEFAULT_MONTHLY_CAP),
            signed: Some(1000i64),
            float: Some(Float64 { bits: DEFAULT_MONTHLY_CAP_BITS }),
        },
    )
}

/// Where the authority is asked about keys of an account.
pub open spec fn endpoint_text(account_id: Seq<char>) -> Seq<char> {
    "https://api.keygen.sh/v1/accounts/"@ + account_id + "/licenses/actions/validate-key"@
}

/// The entitlement code of one item of the authority's list: the string
/// `attributes.code`.
pub open spec fn code_of(item: Json) -> Option<Seq<char>> {
    at(item, "attributes"@).text_field("code"@)
}

pub open spec fn code_decoder() -> spec_fn(Json) -> Option<Seq<char>> {
    |item: Json| code_of(item)
}

/// The entitlement codes that an answer lists, under
/// `data.relationships.entitlements.data`.
pub open spec fn listed_codes(body: Json) -> Seq<Seq<char>> {
    match at(at(at(body, "data"@), "relationships"@), "entitlements"@).array_field("data"@) {
        Some(items) => collect_some(items, code_decoder()),
        None => Seq::empty(),
    }
}

/// Every listed code, granted.
pub open spec fn granted(codes: Seq<Seq<char>>) -> Map<Seq<char>, Json> {
    Map::new(|code: Seq<char>| codes.contains(code), |code: Seq<char>| Json::Bool(true))
}

/// The entitlements of a licence of which the authority lists `codes`: each
/// listed code is granted; a valid licence is entitled to vision whether or
/// not it is listed; and a licence without a monthly cap has the default.
pub open spec fn entitlements_for(valid: bool, codes: Seq<Seq<char>>) -> Map<Seq<char>, Json> {
    let listed = granted(codes);
    let with_vision = if valid && !listed.dom().contains("vision"@) {
        listed.insert("vision"@, Json::Bool(true))
    } else {
        listed
    };
    if with_vision.dom().contains("monthly_cap"@) {
        with_vision
    } else {
        with_vision.insert("monthly_cap"@, default_cap_value())
    }
}

/// What of an answer is malformed, if anything; the parts are looked at in
/// the order of `MalformedResponse`.
pub open spec fn fault_of(body: Json) -> Option<MalformedResponse> {
    if body.members() is None {
        Some(MalformedResponse::Body)
    } else if at(body, "meta"@).members() is None {
        Some(MalformedResponse::Meta)
    } else if at(at(body, "meta"@), "valid"@).boolean() is None {
        Some(MalformedResponse::Valid)
    } else if at(body, "meta"@).text_field("code"@) is None {
        Some(MalformedResponse::Code)
    } else {
        match at(body, "meta"@).field("detail"@) {
            Some(Json::Null) => None,
            Some(Json::String(_)) => None,
            Some(_) => Some(MalformedResponse::Detail),
            None => None,
        }
    }
}

/// Whether `validation` is what the well-formed answer `body` says: the
/// verdict, the entitlements, no expiry, and as `meta` the authority's code
/// and, where it gave one, its detail. No entitlement and no note occurs
/// twice.
pub open spec fn reads_as(validation: LicenseValidation, body: Json) -> bool {
    let meta = at(body, "meta"@);
    &&& Some(validation.valid) == at(meta, "valid"@).boolean()
    &&& as_map(validation.entitlements@) == entitlements_for(validation.valid, listed_codes(body))
    &&& distinct_keys(validation.entitlements@)
    &&& validation.expires_at is None
    &&& distinct_keys(validation.meta@)
    &&& at(Json::Object(validation.meta), "code"@).text() == meta.text_field("code"@)
    &&& at(Json::Object(validation.meta), "detail"@).text() == meta.text_field("detail"@)
    &&& validation.meta@.len() == if meta.text_field("detail"@) is Some {
        2nat
    } else {
        1nat
    }
}

/// Both credentials, or the first that is missing.
pub fn credentials(account_id: Option<String>, api_key: Option<String>) -> (r: Result<
    Credentials,
    ConfigError,
>)
    ensures
        match (account_id, api_key) {
            (None, _) => r == Err::<Credentials, ConfigError>(ConfigError::MissingAccountId),
            (Some(_), None) => r == Err::<Credentials, ConfigError>(ConfigError::MissingApiKey),
            (Some(a), Some(k)) => r == Ok::<Credentials, ConfigError>(
                Credentials { account_id: a, api_key: k },
            ),
        },
{
    match account_id {
        None => Err(ConfigError::MissingAccountId),
        Some(account_id) => match api_key {
            None => Err(ConfigError::MissingApiKey),
            Some(api_key) => Ok(Credentials { account_id, api_key }),
        },
    }
}

impl ConfigError {
    /// What the error says.
    pub fn message(&self) -> (s: &'static str)
        ensures
            s@ == match self {
                ConfigError::MissingAccountId => "KEYGEN_ACCOUNT_ID environment variable not set"@,
                ConfigError::MissingApiKey => "KEYGEN_API_KEY environment variable not set"@,
            },
    {
        match self {
            ConfigError::MissingAccountId => "KEYGEN_ACCOUNT_ID environment variable not set",
            ConfigError::MissingApiKey => "KEYGEN_API_KEY environment variable not set",
        }
    }
}

impl MalformedResponse {
    /// What the error says.
    pub fn message(&self) -> (s: &'static str)
        ensures
            s@ == match self {
                MalformedResponse::Body => "response is not an object"@,
                MalformedResponse::Meta => "missing field `meta`"@,
                MalformedResponse::Valid => "missing field `valid`"@,
                MalformedResponse::Code => "missing field `code`"@,
                MalformedResponse::Detail => "invalid type for field `detail`"@,
            },
    {
        match self {
            MalformedResponse::Body => "response is not an object",
            MalformedResponse::Meta => "missing field `meta`",
            MalformedResponse::Valid => "missing field `valid`",
            MalformedResponse::Code => "missing field `code`",
            MalformedResponse::Detail => "invalid type for field `detail`",
        }
    }
}

/// Where the authority is asked about keys of the account.
pub fn validation_endpoint(account_id: &str) -> (url: String)
    ensures
        url@ == endpoint_text(account_id@),
{
    let mut url = String::from_str("https://api.keygen.sh/v1/accounts/");
    url.append(account_id);
    url.append("/licenses/actions/validate-key");
    url
}

/// The value of the `Authorization` header.
pub fn bearer_token(api_key: &str) -> (header: String)
    ensures
        header@ == "Bearer "@ + api_key@,
{
    concat2("Bearer ", api_key)
}

/// The question about a key: `{"meta": {"key": ...}}`.
pub fn validation_request(license_key: &str) -> (body: Json)
    ensures
        body.members() is Some,
        body.members()->0.len() == 1,
        at(body, "meta"@).members() is Some,
        at(body, "meta"@).members()->0.len() == 1,
        at(body, "meta"@).text_field("key"@) == Some(license_key@),
{
    let mut meta: Vec<(String, Json)> = Vec::new();
    meta.push((String::from_str("key"), Json::String(String::from_str(license_key))));
    let mut members: Vec<(String, Json)> = Vec::new();
    let ghost inner = meta@;
    members.push((String::from_str("meta"), Json::Object(meta)));
    proof {
        assert(member_index(inner, "key"@) == Some(0int));
        assert(member_index(members@, "meta"@) == Some(0int));
    }
    Json::Object(members)
}

fn entitlement_code(item: &Json) -> (r: Option<&str>)
    ensures
        match r {
            Some(code) => code_of(*item) == Some(code@),
            None => code_of(*item) is None,
        },
{
    match item.get("attributes") {
        Some(attributes) => match attributes.get("code") {
            Some(code) => code.as_str(),
            None => None,
        },
        None => None,
    }
}

fn grant_listed(items: &Vec<Json>) -> (out: Vec<(String, Json)>)
    ensures
        as_map(out@) == granted(collect_some(items@, code_decoder())),
        distinct_keys(out@),
{
    let mut out: Vec<(String, Json)> = Vec::new();
    let mut i: usize = 0;
    proof {
        assert(as_map(out@) =~= granted(collect_some(items@.take(0), code_decoder())));
    }
    while i < items.len()
        invariant
            i <= items.len(),
            as_map(out@) == granted(collect_some(items@.take(i as int), code_decoder())),
            distinct_keys(out@),
            forall|j: int| 0 <= j < out@.len() ==> (#[trigger] out@[j]).1 == Json::Bool(true),
        decreases items.len() - i,
    {
        let ghost codes = collect_some(items@.take(i as int), code_decoder());
        let ghost before = out@;
        proof {
            lemma_collect_some_step(items@, code_decoder(), i as int);
        }
        match entitlement_code(&items[i]) {
            Some(code) => if find_member(&out, code).is_some() {
                proof {
                    let longer = codes.push(code@);
                    assert(as_map(before).dom().contains(code@));
                    assert(codes.contains(code@));
                    assert forall|key: Seq<char>| #[trigger]
                        granted(codes).dom().contains(key) == granted(longer).dom().contains(
                            key,
                        ) by {
                        if codes.contains(key) {
                            let k = choose|k: int| 0 <= k < codes.len() && codes[k] == key;
                            assert(longer[k] == key);
                        }
                        if longer.contains(key) {
                            let k = choose|k: int| 0 <= k < longer.len() && longer[k] == key;
                            if k < codes.len() {
                                assert(codes[k] == key);
                            }
                        }
                    }
                    assert(granted(codes) =~= granted(longer));
                }
            } else {
                out.push((String::from_str(code), Json::Bool(true)));
                proof {
                    let member = out@[out@.len() - 1];
                    let longer = codes.push(code@);
                    lemma_distinct_push(before, member);
                    assert forall|key: Seq<char>| #[trigger]
                        as_map(out@).dom().contains(key) == granted(longer).dom().contains(
                            key,
                        ) by {
                        lemma_lookup_push(before, member, key);
                        assert(as_map(before).dom().contains(key) == codes.contains(key));
                        if codes.contains(key) {
                            let k = choose|k: int| 0 <= k < codes.len() && codes[k] == key;
                            assert(longer[k] == key);
                        }
                        if key == code@ {
                            assert(longer[longer.len() - 1] == key);
                        }
                    }
                    assert forall|key: Seq<char>| #[trigger]
                        as_map(out@).dom().contains(key) implies as_map(out@)[key] == Json::Bool(
                            true,
                        ) by {
                        lemma_member_index(out@, key);
                    }
                    assert(as_map(out@) =~= granted(longer));
                }
            },
            None => {},
        }
        i += 1;
    }
    assert(items@.take(items.len() as int) =~= items@);
    out
}

/// Reads the authority's answer to a question about a key.
pub fn read_validation(body: &Json) -> (r: Result<LicenseValidation, MalformedResponse>)
    ensures
        match r {
            Ok(validation) => fault_of(*body) is None && reads_as(validation, *body),
            Err(fault) => fault_of(*body) == Some(fault),
        },
        r matches Ok(validation) ==> validation.valid ==> vision_entitled(validation),
        r matches Ok(validation) ==> !listed_codes(*body).contains("monthly_cap"@)
            ==> lookup(validation.entitlements@, "monthly_cap"@) == Some(default_cap_value()),
{
    if body.as_object().is_none() {
        return Err(MalformedResponse::Body);
    }
    let null = Json::Null;
    let meta = match body.get("meta") {
        Some(meta) => meta,
        None => {
            return Err(MalformedResponse::Meta);
        },
    };
    if meta.as_object().is_none() {
        return Err(MalformedResponse::Meta);
    }
    let valid = match meta.get("valid") {
        Some(v) => match v.as_bool() {
            Some(valid) => valid,
            None => {
                return Err(MalformedResponse::Valid);
            },
        },
        None => {
            return Err(MalformedResponse::Valid);
        },
    };
    let code = match meta.get_string("code") {
        Some(code) => code,
        None => {
            return Err(MalformedResponse::Code);
        },
    };
    let detail: Option<String> = match meta.get("detail") {
        Some(Json::Null) => None,
        Some(Json::String(s)) => Some(s.clone()),
        Some(_) => {
            return Err(MalformedResponse::Detail);
        },
        None => None,
    };
    let data = match body.get("data") {
        Some(v) => v,
        None => &null,
    };
    let relationships = match data.get("relationships") {
        Some(v) => v,
        None => &null,
    };
    let listed = match relationships.get("entitlements") {
        Some(v) => v,
        None => &null,
    };
    let mut entitlements = match listed.get_array("data") {
        Some(items) => grant_listed(items),
        None => {
            let none: Vec<(String, Json)> = Vec::new();
            assert(as_map(none@) =~= granted(Seq::empty()));
            none
        },
    };
    let ghost codes = listed_codes(*body);
    assert(as_map(entitlements@) == granted(codes));
    if valid && find_member(&entitlements, "vision").is_none() {
        let ghost before = entitlements@;
        entitlements.push((String::from_str("vision"), Json::Bool(true)));
        proof {
            let member = entitlements@[entitlements@.len() - 1];
            lemma_distinct_push(before, member);
            assert forall|key: Seq<char>| #[trigger]
                as_map(entitlements@).dom().contains(key) == granted(codes).insert(
                    "vision"@,
                    Json::Bool(true),
                ).dom().contains(key) by {
                lemma_lookup_push(before, member, key);
                assert(as_map(before).dom().contains(key) == granted(codes).dom().contains(key));
            }
            assert forall|key: Seq<char>| #[trigger]
                as_map(entitlements@).dom().contains(key) implies as_map(entitlements@)[key]
                == granted(codes).insert("vision"@, Json::Bool(true))[key] by {
                lemma_lookup_push(before, member, key);
                assert(as_map(before).dom().contains(key) == granted(codes).dom().contains(key));
                if as_map(before).dom().contains(key) {
                    assert(as_map(before)[key] == granted(codes)[key]);
                }
            }
            assert(as_map(entitlements@) =~= granted(codes).insert("vision"@, Json::Bool(true)));
        }
    }
    let ghost with_vision = as_map(entitlements@);
    if find_member(&entitlements, "monthly_cap").is_none() {
        let ghost before = entitlements@;
        entitlements.push(
            (
                String::from_str("monthly_cap"),
                Json::Number(
                    JsonNumber {
                        unsigned: Some(DEFAULT_MONTHLY_CAP),
                        signed: Some(1000),
                        float: Some(Float64 { bits: DEFAULT_MONTHLY_CAP_BITS }),
                    },
                ),
            ),
        );
        proof {
            let member = entitlements@[entitlements@.len() - 1];
            lemma_distinct_push(before, member);
            assert forall|key: Seq<char>| #[trigger]
                as_map(entitlements@).dom().contains(key) == with_vision.insert(
                    "monthly_cap"@,
                    default_cap_value(),
                ).dom().contains(key) by {
                lemma_lookup_push(before, member, key);
                assert(as_map(before).dom().contains(key) == with_vision.dom().contains(key));
            }
            assert forall|key: Seq<char>| #[trigger]
                as_map(entitlements@).dom().contains(key) implies as_map(entitlements@)[key]
                == with_vision.insert("monthly_cap"@, default_cap_value())[key] by {
                lemma_lookup_push(before, member, key);
                assert(as_map(before).dom().contains(key) == with_vision.dom().contains(key));
                if as_map(before).dom().contains(key) {
                    assert(as_map(before)[key] == with_vision[key]);
                }
            }
            assert(as_map(entitlements@) =~= with_vision.insert(
                "monthly_cap"@,
                default_cap_value(),
            ));
        }
    }
    let mut notes: Vec<(String, Json)> = Vec::new();
    notes.push((String::from_str("code"), Json::String(code)));
    match detail {
        Some(words) => {
            notes.push((String::from_str("detail"), Json::String(words)));
        },
        None => {},
    }
    proof {
        reveal_strlit("code");
        reveal_strlit("detail");
        assert("code"@.len() != "detail"@.len());
        let m = notes@;
        assert(distinct_keys(m));
        assert(member_index(m, "code"@) == Some(0int));
        if m.len() == 2 {
            assert(m.drop_first()[0] == m[1]);
            assert(member_index(m.drop_first(), "detail"@) == Some(0int));
        } else {
            assert(member_index(m.drop_first(), "detail"@) is None);
        }
    }
    let validation = LicenseValidation { valid, entitlements, expires_at: None, meta: notes };
    proof {
        reveal_strlit("vision");
        reveal_strlit("monthly_cap");
        assert("vision"@.len() != "monthly_cap"@.len());
        let ents = as_map(validation.entitlements@);
        let expected = entitlements_for(valid, codes);
        assert(ents == expected);
        assert(expected.dom().contains("monthly_cap"@));
        assert(ents.dom().contains("monthly_cap"@));
        assert(lookup(validation.entitlements@, "monthly_cap"@) == Some(ents["monthly_cap"@]));
        if valid {
            assert(expected.dom().contains("vision"@));
            assert(expected["vision"@] == Json::Bool(true));
            assert(ents.dom().contains("vision"@));
            assert(lookup(validation.entitlements@, "vision"@) == Some(ents["vision"@]));
        }
        if !codes.contains("monthly_cap"@) {
            assert(expected["monthly_cap"@] == default_cap_value());
        }
    }
    Ok(validation)
}

} // verus!
