use base64::Engine;
use percent_encoding::{AsciiSet, NON_ALPHANUMERIC};
use serde_json::{Number, Value};

use jobtracker::hiringcafe::{build_state, encode_state, query_from_config, search_url, urlencoded};
use jobtracker::json::JVal;

fn component_set() -> &'static AsciiSet {
    Box::leak(Box::new(
        NON_ALPHANUMERIC
            .remove(b'-')
            .remove(b'_')
            .remove(b'.')
            .remove(b'!')
            .remove(b'~')
            .remove(b'*')
            .remove(b'\'')
            .remove(b'(')
            .remove(b')'),
    ))
}

fn s(v: &str) -> Value {
    Value::String(v.to_owned())
}

fn n(v: i64) -> Value {
    Value::Number(Number::from(v))
}

fn empty_arr() -> Value {
    Value::Array(Vec::new())
}

fn any_obj() -> Value {
    let mut m = serde_json::Map::new();
    m.insert("label".to_owned(), s("Any"));
    m.insert("value".to_owned(), Value::Null);
    Value::Object(m)
}

/// The default filter object, built the way the service's own client does.
fn reference_state(query: &str) -> Value {
    let mut m = serde_json::Map::new();
    m.insert("locations".to_owned(), empty_arr());
    m.insert(
        "workplaceTypes".to_owned(),
        Value::Array(vec![s("Remote"), s("Hybrid"), s("Onsite")]),
    );
    m.insert("defaultToUserLocation".to_owned(), Value::Bool(true));
    m.insert(
        "commitmentTypes".to_owned(),
        Value::Array(vec![
            s("Full-time"),
            s("Part-time"),
            s("Contract"),
            s("Internship"),
            s("Temporary"),
            s("Volunteer"),
        ]),
    );
    m.insert("jobTitleQuery".to_owned(), s(query));
    m.insert("jobDescriptionQuery".to_owned(), s(""));
    m.insert("dateFetchedPastNDays".to_owned(), n(121));
    m.insert("currency".to_owned(), any_obj());
    m.insert("frequency".to_owned(), any_obj());
    m.insert("minCompensationLowEnd".to_owned(), Value::Null);
    m.insert("minCompensationHighEnd".to_owned(), Value::Null);
    m.insert("maxCompensationLowEnd".to_owned(), Value::Null);
    m.insert("maxCompensationHighEnd".to_owned(), Value::Null);
    m.insert("restrictJobsToTransparentSalaries".to_owned(), Value::Bool(false));
    m.insert("calcFrequency".to_owned(), s("Yearly"));
    m.insert("roleYoeRange".to_owned(), Value::Array(vec![n(0), n(20)]));
    m.insert("excludeIfRoleYoeIsNotSpecified".to_owned(), Value::Bool(false));
    m.insert("managementYoeRange".to_owned(), Value::Array(vec![n(0), n(20)]));
    m.insert("excludeIfManagementYoeIsNotSpecified".to_owned(), Value::Bool(false));
    for prefix in ["associates", "bachelors", "masters", "doctorate"] {
        let mut cap = prefix.to_owned();
        let first = cap.remove(0).to_ascii_uppercase();
        cap.insert(0, first);
        m.insert(format!("{prefix}DegreeFieldsOfStudy"), empty_arr());
        m.insert(format!("excluded{cap}DegreeFieldsOfStudy"), empty_arr());
        m.insert(format!("{prefix}DegreeRequirements"), empty_arr());
    }
    m.insert("licensesAndCertifications".to_owned(), empty_arr());
    m.insert("excludedLicensesAndCertifications".to_owned(), empty_arr());
    m.insert("excludeAllLicensesAndCertifications".to_owned(), Value::Bool(false));
    m.insert("departments".to_owned(), empty_arr());
    m.insert("excludedDepartments".to_owned(), empty_arr());
    m.insert("industries".to_owned(), empty_arr());
    m.insert("excludedIndustries".to_owned(), empty_arr());
    m.insert("companyKeywords".to_owned(), empty_arr());
    m.insert("excludedCompanyKeywords".to_owned(), empty_arr());
    m.insert("hideJobTypes".to_owned(), empty_arr());
    m.insert("applicationFormEase".to_owned(), empty_arr());
    m.insert("languageRequirements".to_owned(), empty_arr());
    m.insert("excludedLanguageRequirements".to_owned(), empty_arr());
    m.insert("languageRequirementsOperator".to_owned(), s("OR"));
    m.insert(
        "excludeJobsWithAdditionalLanguageRequirements".to_owned(),
        Value::Bool(false),
    );
    m.insert("benefitsAndPerks".to_owned(), empty_arr());
    Value::Object(m)
}

fn reference_encoding(state: &Value) -> String {
    let json = serde_json::to_string(state).unwrap();
    let uri = percent_encoding::utf8_percent_encode(&json, component_set()).to_string();
    base64::engine::general_purpose::STANDARD.encode(uri.as_bytes())
}

#[test]
fn urlencoded_keeps_unreserved_and_escapes_the_rest() {
    assert_eq!(urlencoded("Staff Engineer"), "Staff%20Engineer");
    assert_eq!(urlencoded("-_.!~*'()"), "-_.!~*'()");
    assert_eq!(urlencoded("a/b?c=d"), "a%2Fb%3Fc%3Dd");
    assert_eq!(urlencoded("\u{e9}"), "%C3%A9");
    assert_eq!(urlencoded(""), "");
}

#[test]
fn encode_state_matches_reference_for_plain_query() {
    let config = JVal::Obj(Vec::new());
    let query = query_from_config(&config);
    assert_eq!(query, "");
    let state = build_state(&config, "Staff Engineer");
    let encoded = encode_state(&state);
    let expected = reference_encoding(&reference_state("Staff Engineer"));
    assert_eq!(encoded, expected);
}

#[test]
fn encode_state_applies_config_overrides() {
    let config = JVal::Obj(vec![
        ("dateFetchedPastNDays".to_owned(), JVal::Num("30".to_owned())),
        (
            "locations".to_owned(),
            JVal::Arr(vec![JVal::Str("Berlin".to_owned())]),
        ),
        ("ignoredKey".to_owned(), JVal::Bool(true)),
    ]);
    let state = build_state(&config, "Staff Engineer");
    let encoded = encode_state(&state);

    let mut reference = reference_state("Staff Engineer");
    let obj = reference.as_object_mut().unwrap();
    obj.insert("dateFetchedPastNDays".to_owned(), n(30));
    obj.insert("locations".to_owned(), Value::Array(vec![s("Berlin")]));
    let expected = reference_encoding(&reference);
    assert_eq!(encoded, expected);
}

#[test]
fn query_prefers_job_title_then_search_terms() {
    let config = JVal::Obj(vec![(
        "jobTitleQuery".to_owned(),
        JVal::Str("Platform Engineer".to_owned()),
    )]);
    assert_eq!(query_from_config(&config), "Platform Engineer");

    let config2 = JVal::Obj(vec![(
        "search_terms".to_owned(),
        JVal::Arr(vec![JVal::Str("SRE".to_owned()), JVal::Str("DevOps".to_owned())]),
    )]);
    assert_eq!(query_from_config(&config2), "SRE");

    let config3 = JVal::Obj(vec![("search_terms".to_owned(), JVal::Arr(Vec::new()))]);
    assert_eq!(query_from_config(&config3), "");

    let config4 = JVal::Obj(vec![
        ("jobTitleQuery".to_owned(), JVal::Num("7".to_owned())),
        (
            "search_terms".to_owned(),
            JVal::Arr(vec![JVal::Str("Fallback".to_owned())]),
        ),
    ]);
    assert_eq!(query_from_config(&config4), "Fallback");
}

#[test]
fn search_url_embeds_the_encoded_state() {
    let url = search_url("AbC+/=");
    assert_eq!(
        url,
        "https://hiring.cafe/api/search-jobs?s=AbC%2B%2F%3D&size=40&page=0"
    );
}

#[test]
fn json_text_round_trips_through_reference_parser() {
    let doc = JVal::Obj(vec![
        ("a".to_owned(), JVal::Arr(vec![JVal::Num("1".to_owned()), JVal::Null])),
        ("b".to_owned(), JVal::Str("x\"y\n".to_owned())),
        ("c".to_owned(), JVal::Bool(true)),
    ]);
    let text = doc.to_text();
    assert_eq!(text, "{\"a\":[1,null],\"b\":\"x\\\"y\\n\",\"c\":true}");
    let parsed: Value = serde_json::from_str(&text).unwrap();
    assert_eq!(serde_json::to_string(&parsed).unwrap(), text);

    let control = JVal::Str("a\u{1}b".to_owned());
    assert_eq!(control.to_text(), "\"a\\u0001b\"");
    let back: Value = serde_json::from_str(&control.to_text()).unwrap();
    assert_eq!(back, Value::String("a\u{1}b".to_owned()));

    let control_letters = JVal::Str("\u{1b}\u{1f}".to_owned());
    assert_eq!(control_letters.to_text(), "\"\\u001b\\u001f\"");
    assert_eq!(
        control_letters.to_text(),
        serde_json::to_string(&Value::String("\u{1b}\u{1f}".to_owned())).unwrap()
    );
}

#[test]
fn encode_state_matches_reference_for_a_query_with_control_characters() {
    let config = JVal::Obj(Vec::new());
    let query = "Staff\u{1b} Engineer\u{1}";
    let state = build_state(&config, query);
    let encoded = encode_state(&state);
    let expected = reference_encoding(&reference_state(query));
    assert_eq!(encoded, expected);
}
