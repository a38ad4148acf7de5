//! The job-board client's pure core: building the search-state document the
//! service expects, encoding it (JSON text, percent-encoding, base64), and
//! normalizing the two response shapes into collected postings.

use vstd::prelude::*;
use vstd::string::StringExecFns;
use vstd::utf8::encode_utf8;
use crate::collectors::{CollectedJob, CollectedJobModel};
use crate::json::{JVal, json_of, json_quote, parse_json, push_char, quoted, spec_as_str, spec_get, text_of, write_quoted};
use crate::util::{u64_to_string, view_opt};
use crate::json::hex_upper;

verus! {

/// The characters the query encoding leaves bare: RFC 3986 unreserved plus
/// `-_.!~*'()` — exactly what the remote service's own encoder keeps. Every
/// other byte is percent-encoded.
pub open spec fn keep_byte(b: u8) -> bool {
    ||| 0x41 <= b <= 0x5a  // A-Z
    ||| 0x61 <= b <= 0x7a  // a-z
    ||| 0x30 <= b <= 0x39  // 0-9
    ||| b == 0x2d  // -
    ||| b == 0x5f  // _
    ||| b == 0x2e  // .
    ||| b == 0x21  // !
    ||| b == 0x7e  // ~
    ||| b == 0x2a  // *
    ||| b == 0x27  // '
    ||| b == 0x28  // (
    ||| b == 0x29  // )
}

/// How one byte appears after percent-encoding: itself when kept, else
/// `%XX` with uppercase hexadecimal digits.
pub open spec fn uri_byte(b: u8) -> Seq<char> {
    if keep_byte(b) {
        seq![b as char]
    } else {
        seq!['%', hex_upper(b as int / 16), hex_upper(b as int % 16)]
    }
}

/// Percent-encoding of a byte sequence, byte for byte.
pub open spec fn uri_encode(bs: Seq<u8>) -> Seq<char>
    decreases bs.len(),
{
    if bs.len() == 0 {
        Seq::empty()
    } else {
        uri_encode(bs.drop_last()) + uri_byte(bs.last())
    }
}

/// What the base64 crate's standard padded alphabet makes of a byte
/// sequence. Named rather than spelled out: the full table is the crate's,
/// and a test holds the pipeline against it byte for byte.
pub uninterp spec fn b64_of(bs: Seq<u8>) -> Seq<char>;

/// Relies on percent_encoding::percent_encode_byte: the three-character
/// `%XX` form of one byte, hexadecimal digits uppercase.
#[verifier::external_body]
fn percent_byte(b: u8) -> (r: &'static str)
    ensures
        r@ == seq!['%', hex_upper(b as int / 16), hex_upper(b as int % 16)],
{
    percent_encoding::percent_encode_byte(b)
}

/// Relies on base64's STANDARD engine (padded, standard alphabet): the
/// encoding depends on the bytes alone, four output characters for every
/// three input bytes begun.
#[verifier::external_body]
fn base64_encode(bs: &[u8]) -> (r: String)
    ensures
        r@ == b64_of(bs@),
        r@.len() == 4 * ((bs@.len() + 2) / 3),
{
    base64::Engine::encode(&base64::engine::general_purpose::STANDARD, bs)
}

/// Does the encoding keep this byte bare?
fn keeps(b: u8) -> (r: bool)
    ensures
        r == keep_byte(b),
{
    (0x41 <= b && b <= 0x5a) || (0x61 <= b && b <= 0x7a) || (0x30 <= b && b <= 0x39) || b == 0x2d
        || b == 0x5f || b == 0x2e || b == 0x21 || b == 0x7e || b == 0x2a || b == 0x27 || b == 0x28
        || b == 0x29
}

/// Percent-encodes a string for use in a query parameter, over its UTF-8
/// bytes.
#[verifier::loop_isolation(false)]
pub fn urlencoded(s: &str) -> (r: String)
    ensures
        r@ == uri_encode(encode_utf8(s@)),
{
    let bs = s.as_bytes();
    let mut out = String::new();
    let mut i: usize = 0;
    while i < bs.len()
        invariant
            i <= bs@.len(),
            bs@ == encode_utf8(s@),
            out@ == uri_encode(bs@.take(i as int)),
        decreases bs.len() - i,
    {
        let b = bs[i];
        if keeps(b) {
            proof {
                vstd::utf8::char_is_scalar(b as char);
            }
            push_char(&mut out, b as char);
        } else {
            out.append(percent_byte(b));
        }
        proof {
            assert(bs@.take(i + 1).drop_last() =~= bs@.take(i as int));
            assert(bs@.take(i + 1).last() == bs@[i as int]);
            assert(out@ =~= uri_encode(bs@.take(i + 1)));
        }
        i = i + 1;
    }
    proof {
        assert(bs@.take(bs@.len() as int) =~= bs@);
    }
    out
}

/// The search-state document: keys with their values' JSON texts, in the
/// order they are serialized.
pub open spec fn pairs_view(ps: Seq<(String, String)>) -> Seq<(Seq<char>, Seq<char>)> {
    ps.map_values(|p: (String, String)| (p.0@, p.1@))
}

/// The JSON text of the state document: an object of the pairs in order,
/// each value's text spliced in raw.
pub open spec fn state_text(ps: Seq<(Seq<char>, Seq<char>)>) -> Seq<char> {
    seq!['{'] + state_fields(ps) + seq!['}']
}

/// The comma-separated `"key":value` texts of the state document.
pub open spec fn state_fields(ps: Seq<(Seq<char>, Seq<char>)>) -> Seq<char>
    decreases ps.len(),
{
    if ps.len() == 0 {
        Seq::empty()
    } else if ps.len() == 1 {
        quoted(ps[0].0) + seq![':'] + ps[0].1
    } else {
        state_fields(ps.drop_last()) + seq![','] + quoted(ps.last().0) + seq![':'] + ps.last().1
    }
}

/// Replaces the value at every pair whose key is `k`.
pub open spec fn set_key(
    ps: Seq<(Seq<char>, Seq<char>)>,
    k: Seq<char>,
    val: Seq<char>,
) -> Seq<(Seq<char>, Seq<char>)> {
    ps.map_values(|p: (Seq<char>, Seq<char>)| if p.0 == k { (k, val) } else { p })
}

/// One override: when the configuration document holds the key, its value's
/// JSON text replaces the default.
pub open spec fn apply_override(
    ps: Seq<(Seq<char>, Seq<char>)>,
    config: JVal,
    k: Seq<char>,
) -> Seq<(Seq<char>, Seq<char>)> {
    match spec_get(config, k) {
        Some(v) => set_key(ps, k, text_of(v)),
        None => ps,
    }
}

/// The full state document for a query and a configuration: the defaults,
/// the query spliced into `jobTitleQuery` when non-empty, then the
/// configuration's overrides for the keys the service supports.
pub open spec fn spec_build_state(config: JVal, q: Seq<char>) -> Seq<(Seq<char>, Seq<char>)> {
    let s0 = default_pairs();
    let s1 = if q.len() > 0 {
        set_key(s0, "jobTitleQuery"@, quoted(q))
    } else {
        s0
    };
    let s2 = apply_override(s1, config, "locations"@);
    let s3 = apply_override(s2, config, "workplaceTypes"@);
    let s4 = apply_override(s3, config, "commitmentTypes"@);
    let s5 = apply_override(s4, config, "dateFetchedPastNDays"@);
    let s6 = apply_override(s5, config, "departments"@);
    apply_override(s6, config, "industries"@)
}

/// The default search-state document, keys in the byte order the serialized
/// map uses.
pub open spec fn default_pairs() -> Seq<(Seq<char>, Seq<char>)> {
    seq![
        ("applicationFormEase"@, "[]"@),
        ("associatesDegreeFieldsOfStudy"@, "[]"@),
        ("associatesDegreeRequirements"@, "[]"@),
        ("bachelorsDegreeFieldsOfStudy"@, "[]"@),
        ("bachelorsDegreeRequirements"@, "[]"@),
        ("benefitsAndPerks"@, "[]"@),
        ("calcFrequency"@, "\"Yearly\""@),
        ("commitmentTypes"@,
            "[\"Full-time\",\"Part-time\",\"Contract\",\"Internship\",\"Temporary\",\"Volunteer\"]"@),
        ("companyKeywords"@, "[]"@),
        ("currency"@, "{\"label\":\"Any\",\"value\":null}"@),
        ("dateFetchedPastNDays"@, "121"@),
        ("defaultToUserLocation"@, "true"@),
        ("departments"@, "[]"@),
        ("doctorateDegreeFieldsOfStudy"@, "[]"@),
        ("doctorateDegreeRequirements"@, "[]"@),
        ("excludeAllLicensesAndCertifications"@, "false"@),
        ("excludeIfManagementYoeIsNotSpecified"@, "false"@),
        ("excludeIfRoleYoeIsNotSpecified"@, "false"@),
        ("excludeJobsWithAdditionalLanguageRequirements"@, "false"@),
        ("excludedAssociatesDegreeFieldsOfStudy"@, "[]"@),
        ("excludedBachelorsDegreeFieldsOfStudy"@, "[]"@),
        ("excludedCompanyKeywords"@, "[]"@),
        ("excludedDepartments"@, "[]"@),
        ("excludedDoctorateDegreeFieldsOfStudy"@, "[]"@),
        ("excludedIndustries"@, "[]"@),
        ("excludedLanguageRequirements"@, "[]"@),
        ("excludedLicensesAndCertifications"@, "[]"@),
        ("excludedMastersDegreeFieldsOfStudy"@, "[]"@),
        ("frequency"@, "{\"label\":\"Any\",\"value\":null}"@),
        ("hideJobTypes"@, "[]"@),
        ("industries"@, "[]"@),
        ("jobDescriptionQuery"@, "\"\""@),
        ("jobTitleQuery"@, "\"\""@),
        ("languageRequirements"@, "[]"@),
        ("languageRequirementsOperator"@, "\"OR\""@),
        ("licensesAndCertifications"@, "[]"@),
        ("locations"@, "[]"@),
        ("managementYoeRange"@, "[0,20]"@),
        ("mastersDegreeFieldsOfStudy"@, "[]"@),
        ("mastersDegreeRequirements"@, "[]"@),
        ("maxCompensationHighEnd"@, "null"@),
        ("maxCompensationLowEnd"@, "null"@),
        ("minCompensationHighEnd"@, "null"@),
        ("minCompensationLowEnd"@, "null"@),
        ("restrictJobsToTransparentSalaries"@, "false"@),
        ("roleYoeRange"@, "[0,20]"@),
        ("workplaceTypes"@, "[\"Remote\",\"Hybrid\",\"Onsite\"]"@),
    ]
}

/// The default search-state document as data, in serialization order.
pub fn default_state() -> (r: Vec<(String, String)>)
    ensures
        pairs_view(r@) == default_pairs(),
{
    let mut v: Vec<(String, String)> = Vec::new();
    v.push(("applicationFormEase".to_owned(), "[]".to_owned()));
    v.push(("associatesDegreeFieldsOfStudy".to_owned(), "[]".to_owned()));
    v.push(("associatesDegreeRequirements".to_owned(), "[]".to_owned()));
    v.push(("bachelorsDegreeFieldsOfStudy".to_owned(), "[]".to_owned()));
    v.push(("bachelorsDegreeRequirements".to_owned(), "[]".to_owned()));
    v.push(("benefitsAndPerks".to_owned(), "[]".to_owned()));
    v.push(("calcFrequency".to_owned(), "\"Yearly\"".to_owned()));
    v.push((
        "commitmentTypes".to_owned(),
        "[\"Full-time\",\"Part-time\",\"Contract\",\"Internship\",\"Temporary\",\"Volunteer\"]".to_owned(),
    ));
    v.push(("companyKeywords".to_owned(), "[]".to_owned()));
    v.push(("currency".to_owned(), "{\"label\":\"Any\",\"value\":null}".to_owned()));
    v.push(("dateFetchedPastNDays".to_owned(), "121".to_owned()));
    v.push(("defaultToUserLocation".to_owned(), "true".to_owned()));
    v.push(("departments".to_owned(), "[]".to_owned()));
    v.push(("doctorateDegreeFieldsOfStudy".to_owned(), "[]".to_owned()));
    v.push(("doctorateDegreeRequirements".to_owned(), "[]".to_owned()));
    v.push(("excludeAllLicensesAndCertifications".to_owned(), "false".to_owned()));
    v.push(("excludeIfManagementYoeIsNotSpecified".to_owned(), "false".to_owned()));
    v.push(("excludeIfRoleYoeIsNotSpecified".to_owned(), "false".to_owned()));
    v.push(("excludeJobsWithAdditionalLanguageRequirements".to_owned(), "false".to_owned()));
    v.push(("excludedAssociatesDegreeFieldsOfStudy".to_owned(), "[]".to_owned()));
    v.push(("excludedBachelorsDegreeFieldsOfStudy".to_owned(), "[]".to_owned()));
    v.push(("excludedCompanyKeywords".to_owned(), "[]".to_owned()));
    v.push(("excludedDepartments".to_owned(), "[]".to_owned()));
    v.push(("excludedDoctorateDegreeFieldsOfStudy".to_owned(), "[]".to_owned()));
    v.push(("excludedIndustries".to_owned(), "[]".to_owned()));
    v.push(("excludedLanguageRequirements".to_owned(), "[]".to_owned()));
    v.push(("excludedLicensesAndCertifications".to_owned(), "[]".to_owned()));
    v.push(("excludedMastersDegreeFieldsOfStudy".to_owned(), "[]".to_owned()));
    v.push(("frequency".to_owned(), "{\"label\":\"Any\",\"value\":null}".to_owned()));
    v.push(("hideJobTypes".to_owned(), "[]".to_owned()));
    v.push(("industries".to_owned(), "[]".to_owned()));
    v.push(("jobDescriptionQuery".to_owned(), "\"\"".to_owned()));
    v.push(("jobTitleQuery".to_owned(), "\"\"".to_owned()));
    v.push(("languageRequirements".to_owned(), "[]".to_owned()));
    v.push(("languageRequirementsOperator".to_owned(), "\"OR\"".to_owned()));
    v.push(("licensesAndCertifications".to_owned(), "[]".to_owned()));
    v.push(("locations".to_owned(), "[]".to_owned()));
    v.push(("managementYoeRange".to_owned(), "[0,20]".to_owned()));
    v.push(("mastersDegreeFieldsOfStudy".to_owned(), "[]".to_owned()));
    v.push(("mastersDegreeRequirements".to_owned(), "[]".to_owned()));
    v.push(("maxCompensationHighEnd".to_owned(), "null".to_owned()));
    v.push(("maxCompensationLowEnd".to_owned(), "null".to_owned()));
    v.push(("minCompensationHighEnd".to_owned(), "null".to_owned()));
    v.push(("minCompensationLowEnd".to_owned(), "null".to_owned()));
    v.push(("restrictJobsToTransparentSalaries".to_owned(), "false".to_owned()));
    v.push(("roleYoeRange".to_owned(), "[0,20]".to_owned()));
    v.push(("workplaceTypes".to_owned(), "[\"Remote\",\"Hybrid\",\"Onsite\"]".to_owned()));
    proof {
        assert(pairs_view(v@) =~= default_pairs());
    }
    v
}

/// Replaces the value at every pair whose key is `key`.
#[verifier::loop_isolation(false)]
fn set_key_exec(ps: &mut Vec<(String, String)>, key: &str, value: &str)
    ensures
        pairs_view(final(ps)@) == set_key(pairs_view(old(ps)@), key@, value@),
{
    let k = key.to_owned();
    let n = ps.len();
    let mut i: usize = 0;
    while i < n
        invariant
            i <= n,
            n == ps@.len(),
            ps@.len() == old(ps)@.len(),
            forall|j: int| i <= j < n ==> ps@[j] == (#[trigger] old(ps)@[j]),
            forall|j: int|
                0 <= j < i ==> (#[trigger] pairs_view(ps@)[j]) == (if old(ps)@[j].0@ == key@ {
                    (key@, value@)
                } else {
                    pairs_view(old(ps)@)[j]
                }),
        decreases n - i,
    {
        let ghost prev = ps@;
        if ps[i].0.eq(&k) {
            ps.set(i, (key.to_owned(), value.to_owned()));
        }
        proof {
            assert forall|j: int| 0 <= j < i + 1 implies (#[trigger] pairs_view(ps@)[j]) == (
            if old(ps)@[j].0@ == key@ {
                (key@, value@)
            } else {
                pairs_view(old(ps)@)[j]
            }) by {
                assert(pairs_view(ps@)[j] == (ps@[j].0@, ps@[j].1@));
                assert(pairs_view(old(ps)@)[j] == (old(ps)@[j].0@, old(ps)@[j].1@));
                if j < i {
                    assert(ps@[j] == prev[j]);
                    assert(pairs_view(prev)[j] == (prev[j].0@, prev[j].1@));
                } else {
                    assert(prev[j] == old(ps)@[j]);
                }
            }
        }
        i = i + 1;
    }
    proof {
        assert(pairs_view(ps@) =~~= set_key(pairs_view(old(ps)@), key@, value@));
    }
}

/// The free-text query a configuration asks for: `jobTitleQuery` when it is
/// a string, else the first entry of `search_terms` when that is a string,
/// else empty.
pub open spec fn spec_query_of(config: JVal) -> Seq<char> {
    match spec_get(config, "jobTitleQuery"@) {
        Some(JVal::Str(s)) => s@,
        _ => match spec_get(config, "search_terms"@) {
            Some(JVal::Arr(items)) => if items@.len() > 0 {
                match items@[0] {
                    JVal::Str(s) => s@,
                    _ => Seq::empty(),
                }
            } else {
                Seq::empty()
            },
            _ => Seq::empty(),
        },
    }
}

/// Reads the free-text query out of a configuration document.
pub fn query_from_config(config: &JVal) -> (r: String)
    ensures
        r@ == spec_query_of(*config),
{
    match config.get("jobTitleQuery") {
        Some(JVal::Str(s)) => s.clone(),
        _ => match config.get("search_terms") {
            Some(JVal::Arr(items)) => {
                if items.len() > 0 {
                    match &items[0] {
                        JVal::Str(s) => s.clone(),
                        _ => String::new(),
                    }
                } else {
                    String::new()
                }
            },
            _ => String::new(),
        },
    }
}

/// Builds the state document for a configuration and query: defaults, the
/// query, then the configuration's overrides.
pub fn build_state(config: &JVal, query: &str) -> (r: Vec<(String, String)>)
    ensures
        pairs_view(r@) == spec_build_state(*config, query@),
{
    let mut state = default_state();
    if !query.is_empty() {
        let quoted_query = json_quote(query);
        set_key_exec(&mut state, "jobTitleQuery", quoted_query.as_str());
    }
    apply_override_exec(&mut state, config, "locations");
    apply_override_exec(&mut state, config, "workplaceTypes");
    apply_override_exec(&mut state, config, "commitmentTypes");
    apply_override_exec(&mut state, config, "dateFetchedPastNDays");
    apply_override_exec(&mut state, config, "departments");
    apply_override_exec(&mut state, config, "industries");
    state
}

/// Applies one configuration override to the state document.
fn apply_override_exec(ps: &mut Vec<(String, String)>, config: &JVal, key: &str)
    ensures
        pairs_view(final(ps)@) == apply_override(pairs_view(old(ps)@), *config, key@),
{
    match config.get(key) {
        Some(v) => {
            let text = v.to_text();
            set_key_exec(ps, key, text.as_str());
        },
        None => {},
    }
}

/// Serializes the state document and encodes it as the service expects:
/// JSON text, percent-encoded, then base64.
#[verifier::loop_isolation(false)]
pub fn encode_state(state: &Vec<(String, String)>) -> (r: String)
    ensures
        r@ == b64_of(encode_utf8(uri_encode(encode_utf8(state_text(pairs_view(state@)))))),
{
    let mut text = String::new();
    push_char(&mut text, '{');
    let n = state.len();
    let mut i: usize = 0;
    while i < n
        invariant
            i <= n,
            n == state@.len(),
            text@ == seq!['{'] + state_fields(pairs_view(state@).take(i as int)),
        decreases n - i,
    {
        if i > 0 {
            push_char(&mut text, ',');
        }
        write_quoted(state[i].0.as_str(), &mut text);
        push_char(&mut text, ':');
        text.append(state[i].1.as_str());
        proof {
            assert(pairs_view(state@).take(i + 1).drop_last() =~= pairs_view(state@).take(i as int));
            assert(pairs_view(state@).take(i + 1).last() == pairs_view(state@)[i as int]);
            assert(text@ =~= seq!['{'] + state_fields(pairs_view(state@).take(i + 1)));
        }
        i = i + 1;
    }
    push_char(&mut text, '}');
    proof {
        assert(pairs_view(state@).take(n as int) =~= pairs_view(state@));
        assert(text@ =~= state_text(pairs_view(state@)));
    }
    let uri = urlencoded(text.as_str());
    base64_encode(uri.as_str().as_bytes())
}

/// The search URL for an encoded state: fixed page size, first page.
pub fn search_url(encoded: &str) -> (r: String)
    ensures
        r@ == "https://hiring.cafe/api/search-jobs?s="@ + uri_encode(encode_utf8(encoded@))
            + "&size=40&page=0"@,
{
    let mut url = "https://hiring.cafe/api/search-jobs?s=".to_owned();
    let q = urlencoded(encoded);
    url.append(q.as_str());
    url.append("&size=40&page=0");
    url
}

/// What went wrong while collecting from the source.
#[derive(Debug)]
pub enum CollectError {
    /// The service reported rate limiting (HTTP 429): the one condition
    /// that sends the collector to its fallback path.
    RateLimited,
    /// Any other non-success HTTP status.
    HttpStatus(u16),
    /// The response body was not the JSON document expected.
    BadBody,
    /// The response parsed but had no results list.
    MissingResults,
    /// The transport failed before a status arrived; the detail is the
    /// transport's own message.
    Transport(String),
    /// The fallback tool exited unsuccessfully; the detail is its error
    /// output.
    ToolFailed(String),
    /// The fallback tool's output was not the JSON document expected.
    ToolOutput,
}

/// The stored message of a collection error.
pub open spec fn spec_collect_message(e: CollectError) -> Seq<char> {
    match e {
        CollectError::RateLimited => "429 Too Many Requests"@,
        CollectError::HttpStatus(s) => "HiringCafe returned "@ + crate::util::dec_of(s as int),
        CollectError::BadBody => "Failed to parse response"@,
        CollectError::MissingResults => "Missing 'results' in response"@,
        CollectError::Transport(m) => "HiringCafe request failed: "@ + m@,
        CollectError::ToolFailed(m) => "hiringcafe-cli failed: "@ + m@,
        CollectError::ToolOutput => "Failed to parse CLI output"@,
    }
}

impl CollectError {
    /// The message stored on the run when this error ends it.
    pub fn message(&self) -> (r: String)
        ensures
            r@ == spec_collect_message(*self),
    {
        match self {
            CollectError::RateLimited => "429 Too Many Requests".to_owned(),
            CollectError::HttpStatus(status) => {
                let mut m = "HiringCafe returned ".to_owned();
                let digits = u64_to_string(*status as u64);
                m.append(digits.as_str());
                m
            },
            CollectError::BadBody => "Failed to parse response".to_owned(),
            CollectError::MissingResults => "Missing 'results' in response".to_owned(),
            CollectError::Transport(detail) => {
                let mut m = "HiringCafe request failed: ".to_owned();
                m.append(detail.as_str());
                m
            },
            CollectError::ToolFailed(detail) => {
                let mut m = "hiringcafe-cli failed: ".to_owned();
                m.append(detail.as_str());
                m
            },
            CollectError::ToolOutput => "Failed to parse CLI output".to_owned(),
        }
    }
}

/// Law: the fallback path runs exactly when the primary path reported rate
/// limiting; no other failure — an HTTP 500 included — triggers it.
pub fn should_fallback(e: &CollectError) -> (r: bool)
    ensures
        r <==> *e is RateLimited,
{
    matches!(e, CollectError::RateLimited)
}

/// Is a digit character?
pub open spec fn is_digit_char(c: char) -> bool {
    '0' <= c <= '9'
}

/// The value of a digit character.
pub open spec fn digit_val(c: char) -> int {
    (c as int) - ('0' as int)
}

/// Are all characters digits?
pub open spec fn all_digit_chars(s: Seq<char>) -> bool {
    forall|i: int| 0 <= i < s.len() ==> is_digit_char(#[trigger] s[i])
}

/// Accumulator cap: one past the largest magnitude a 32-bit value can
/// carry, so saturation can still tell "too big" apart.
pub open spec fn cap_acc(x: int) -> int {
    if x > 0x8000_0000 {
        0x8000_0000
    } else {
        x
    }
}

/// Scans a magnitude: digits, optionally a dot and a digit fraction, which
/// truncation discards. `None` for anything else — exponent forms are not
/// recognized.
pub open spec fn mag_from(s: Seq<char>, acc: int, seen: bool) -> Option<int>
    decreases s.len(),
{
    if s.len() == 0 {
        if seen {
            Some(acc)
        } else {
            None
        }
    } else if is_digit_char(s[0]) {
        mag_from(s.drop_first(), cap_acc(acc * 10 + digit_val(s[0])), true)
    } else if s[0] == '.' && seen {
        if all_digit_chars(s.drop_first()) {
            Some(acc)
        } else {
            None
        }
    } else {
        None
    }
}

/// A decimal number text as an integer yearly amount: truncated toward
/// zero, saturated to the 32-bit range.
pub open spec fn spec_salary_of(s: Seq<char>) -> Option<i32> {
    if s.len() > 0 && s[0] == '-' {
        match mag_from(s.drop_first(), 0, false) {
            Some(v) => Some((if v >= 0x8000_0000 { -0x8000_0000 } else { -v }) as i32),
            None => None,
        }
    } else {
        match mag_from(s, 0, false) {
            Some(v) => Some((if v >= 0x7fff_ffff { 0x7fff_ffff } else { v }) as i32),
            None => None,
        }
    }
}

/// The salary a JSON field yields: only a number field counts.
pub open spec fn spec_salary(v: Option<JVal>) -> Option<i32> {
    match v {
        Some(JVal::Num(s)) => spec_salary_of(s@),
        _ => None,
    }
}

/// The value of a digit character, if it is one.
fn digit_of(c: char) -> (r: Option<u8>)
    ensures
        match r {
            Some(d) => is_digit_char(c) && d as int == digit_val(c) && d < 10,
            None => !is_digit_char(c),
        },
{
    match c {
        '0' => Some(0),
        '1' => Some(1),
        '2' => Some(2),
        '3' => Some(3),
        '4' => Some(4),
        '5' => Some(5),
        '6' => Some(6),
        '7' => Some(7),
        '8' => Some(8),
        '9' => Some(9),
        _ => None,
    }
}

/// Parses a decimal number text into a truncated, saturated yearly amount.
#[verifier::loop_isolation(false)]
fn salary_from_text(s: &str) -> (r: Option<i32>)
    ensures
        r == spec_salary_of(s@),
{
    let cs = crate::json::chars_vec(s);
    let negative = cs.len() > 0 && cs[0] == '-';
    let start: usize = if negative {
        1
    } else {
        0
    };
    proof {
        if negative {
            assert(cs@[0] == '-');
            assert(cs@.drop_first() =~= cs@.skip(1));
        } else {
            assert(cs@.skip(0) =~= cs@);
        }
    }
    let mut i: usize = start;
    let mut acc: i64 = 0;
    let mut seen: bool = false;
    #[verifier::loop_isolation(true)]
    loop
        invariant
            start <= i <= cs@.len(),
            cs@ == s@,
            0 <= acc <= 0x8000_0000,
            mag_from(cs@.skip(start as int), 0, false) == mag_from(
                cs@.skip(i as int),
                acc as int,
                seen,
            ),
        ensures
            start <= i <= cs@.len(),
            mag_from(cs@.skip(start as int), 0, false) == mag_from(
                cs@.skip(i as int),
                acc as int,
                seen,
            ),
            0 <= acc <= 0x8000_0000,
            i < cs@.len() ==> !is_digit_char(cs@[i as int]),
        decreases cs@.len() - i,
    {
        if i >= cs.len() {
            break;
        }
        let d = match digit_of(cs[i]) {
            Some(d) => d,
            None => {
                break;
            },
        };
        proof {
            assert(cs@.skip(i as int)[0] == cs@[i as int]);
            assert(cs@.skip(i as int).drop_first() =~= cs@.skip(i + 1));
        }
        let next: i64 = acc * 10 + d as i64;
        acc = if next > 0x8000_0000 {
            0x8000_0000
        } else {
            next
        };
        seen = true;
        i = i + 1;
    }
    if !seen {
        proof {
            if i < cs@.len() {
                assert(mag_from(cs@.skip(i as int), acc as int, false) is None);
            } else {
                assert(cs@.skip(i as int).len() == 0);
            }
        }
        return None;
    }
    if i == cs.len() {
        proof {
            assert(cs@.skip(i as int).len() == 0);
        }
    } else {
        if cs[i] != '.' {
            proof {
                assert(cs@.skip(i as int)[0] == cs@[i as int]);
            }
            return None;
        }
        let mut j: usize = i + 1;
        while j < cs.len()
            invariant
                i + 1 <= j <= cs@.len(),
                forall|k: int| i + 1 <= k < j ==> is_digit_char(#[trigger] cs@[k]),
            decreases cs@.len() - j,
        {
            if digit_of(cs[j]).is_none() {
                proof {
                    assert(cs@.skip(i as int)[0] == cs@[i as int]);
                    assert(cs@.skip(i + 1)[j - i - 1] == cs@[j as int]);
                    assert(cs@.skip(i as int).drop_first() =~= cs@.skip(i + 1));
                    assert(!all_digit_chars(cs@.skip(i + 1)));
                }
                return None;
            }
            j = j + 1;
        }
        proof {
            assert(cs@.skip(i as int)[0] == cs@[i as int]);
            assert(cs@.skip(i as int).drop_first() =~= cs@.skip(i + 1));
            assert forall|k: int| 0 <= k < cs@.skip(i + 1).len() implies is_digit_char(
                #[trigger] cs@.skip(i + 1)[k],
            ) by {
                assert(cs@.skip(i + 1)[k] == cs@[k + i + 1]);
            }
            assert(all_digit_chars(cs@.skip(i + 1)));
        }
    }
    proof {
        assert(mag_from(cs@.skip(start as int), 0, false) == Some(acc as int));
        if negative {
            assert(cs@[0] == '-');
            assert(cs@.drop_first() =~= cs@.skip(1));
        } else {
            assert(cs@.skip(0) =~= cs@);
        }
    }
    if negative {
        if acc >= 0x8000_0000 {
            Some(i32::MIN)
        } else {
            Some(0 - acc as i32)
        }
    } else {
        if acc >= 0x7fff_ffff {
            Some(i32::MAX)
        } else {
            Some(acc as i32)
        }
    }
}

/// Reads one salary bound out of a JSON field.
fn salary_field(v: Option<&JVal>) -> (r: Option<i32>)
    ensures
        (match v {
            Some(f) => r == spec_salary(Some(*f)),
            None => r is None,
        }),
{
    match v {
        Some(JVal::Num(s)) => salary_from_text(s.as_str()),
        _ => None,
    }
}

/// Extracts the yearly salary bounds from the processed-job-data object:
/// integer amounts, fractions truncated.
pub fn extract_salary(vpd: &JVal) -> (r: (Option<i32>, Option<i32>))
    ensures
        r.0 == spec_salary(spec_get(*vpd, "yearly_min_compensation"@)),
        r.1 == spec_salary(spec_get(*vpd, "yearly_max_compensation"@)),
    {
    let min = salary_field(vpd.get("yearly_min_compensation"));
    let max = salary_field(vpd.get("yearly_max_compensation"));
    (min, max)
}

/// The first of two lookups that found anything, read as a string.
pub open spec fn str_or(primary: Option<JVal>, fallback: Option<JVal>) -> Option<Seq<char>> {
    spec_as_str(if primary is Some { primary } else { fallback })
}

/// A string field's content, or a default.
pub open spec fn str_or_default(v: Option<Seq<char>>, default: Seq<char>) -> Seq<char> {
    match v {
        Some(s) => s,
        None => default,
    }
}

/// What one hit of the native API response yields: the processed job data
/// must be present and a source id must be found, else the hit is dropped
/// as unsafe to reconcile. Missing optional fields stay empty.
pub open spec fn spec_parse_api_job(raw: JVal) -> Option<CollectedJobModel> {
    match spec_get(raw, "v5_processed_job_data"@) {
        None => None,
        Some(vpd) => {
            let vcd = (match spec_get(raw, "v5_processed_company_data"@) {
                Some(v) => v,
                None => raw,
            });
            let ji = (match spec_get(raw, "job_information"@) {
                Some(v) => v,
                None => raw,
            });
            match str_or(spec_get(raw, "objectID"@), spec_get(raw, "requisition_id"@)) {
                None => None,
                Some(sid) => Some(
                    CollectedJobModel {
                        company_name: str_or_default(
                            str_or(spec_get(vpd, "company_name"@), spec_get(vcd, "name"@)),
                            "Unknown"@,
                        ),
                        title: str_or_default(
                            str_or(spec_get(vpd, "core_job_title"@), spec_get(ji, "title"@)),
                            "Untitled"@,
                        ),
                        url: spec_as_str(spec_get(raw, "apply_url"@)),
                        location: spec_as_str(spec_get(vpd, "formatted_workplace_location"@)),
                        remote_type: spec_as_str(spec_get(vpd, "workplace_type"@)),
                        salary_min: spec_salary(spec_get(vpd, "yearly_min_compensation"@)),
                        salary_max: spec_salary(spec_get(vpd, "yearly_max_compensation"@)),
                        salary_currency: spec_as_str(
                            spec_get(vpd, "listed_compensation_currency"@),
                        ),
                        description: spec_as_str(spec_get(ji, "description"@)),
                        source: "hiringcafe"@,
                        source_id: sid,
                        raw_data: Some(text_of(raw)),
                    },
                ),
            }
        },
    }
}

/// The first of two lookups, as references.
fn pick<'a>(primary: Option<&'a JVal>, fallback: Option<&'a JVal>) -> (r: Option<&'a JVal>)
    ensures
        (match (primary, fallback) {
            (Some(p), _) => r matches Some(x) && *x == *p,
            (None, Some(f)) => r matches Some(x) && *x == *f,
            (None, None) => r is None,
        }),
{
    match primary {
        Some(p) => Some(p),
        None => fallback,
    }
}

/// A string field out of a lookup, cloned, with a default.
fn str_of_or<'a>(v: Option<&'a JVal>, default: &str) -> (r: String)
    ensures
        r@ == str_or_default(
            spec_as_str(match v {
                Some(x) => Some(*x),
                None => None,
            }),
            default@,
        ),
{
    match v {
        Some(JVal::Str(s)) => s.clone(),
        _ => default.to_owned(),
    }
}

/// A string field out of a lookup, cloned.
fn str_of<'a>(v: Option<&'a JVal>) -> (r: Option<String>)
    ensures
        view_opt(r) == spec_as_str(match v {
            Some(x) => Some(*x),
            None => None,
        }),
{
    match v {
        Some(JVal::Str(s)) => Some(s.clone()),
        _ => None,
    }
}

/// Parses one hit of the native API response; `None` drops the hit.
pub fn parse_api_job(raw: &JVal) -> (r: Option<CollectedJob>)
    ensures
        (match r {
            Some(job) => spec_parse_api_job(*raw) == Some(job@),
            None => spec_parse_api_job(*raw) is None,
        }),
{
    let vpd = match raw.get("v5_processed_job_data") {
        Some(v) => v,
        None => {
            return None;
        },
    };
    let vcd = match raw.get("v5_processed_company_data") {
        Some(v) => v,
        None => raw,
    };
    let ji = match raw.get("job_information") {
        Some(v) => v,
        None => raw,
    };
    let source_id = match str_of(pick(raw.get("objectID"), raw.get("requisition_id"))) {
        Some(s) => s,
        None => {
            return None;
        },
    };
    let company_name = str_of_or(pick(vpd.get("company_name"), vcd.get("name")), "Unknown");
    let title = str_of_or(pick(vpd.get("core_job_title"), ji.get("title")), "Untitled");
    let (salary_min, salary_max) = extract_salary(vpd);
    Some(
        CollectedJob {
            company_name: company_name,
            title: title,
            url: str_of(raw.get("apply_url")),
            location: str_of(vpd.get("formatted_workplace_location")),
            remote_type: str_of(vpd.get("workplace_type")),
            salary_min: salary_min,
            salary_max: salary_max,
            salary_currency: str_of(vpd.get("listed_compensation_currency")),
            description: str_of(ji.get("description")),
            source: "hiringcafe".to_owned(),
            source_id: source_id,
            raw_data: Some(raw.to_text()),
        },
    )
}

/// What one object of the fallback tool's output yields: a title and a
/// source id are required, the rest is optional; the tool reports no
/// salary figures.
pub open spec fn spec_parse_cli_job(job: JVal) -> Option<CollectedJobModel> {
    match spec_as_str(spec_get(job, "title"@)) {
        None => None,
        Some(title) => match str_or(spec_get(job, "id"@), spec_get(job, "requisition_id"@)) {
            None => None,
            Some(sid) => Some(
                CollectedJobModel {
                    company_name: str_or_default(
                        spec_as_str(spec_get(job, "company"@)),
                        "Unknown"@,
                    ),
                    title: title,
                    url: spec_as_str(spec_get(job, "apply_url"@)),
                    location: spec_as_str(spec_get(job, "location"@)),
                    remote_type: spec_as_str(spec_get(job, "workplace_type"@)),
                    salary_min: None,
                    salary_max: None,
                    salary_currency: None,
                    description: spec_as_str(spec_get(job, "description_html"@)),
                    source: "hiringcafe"@,
                    source_id: sid,
                    raw_data: Some(text_of(job)),
                },
            ),
        },
    }
}

/// Parses one object of the fallback tool's output; `None` drops it.
pub fn parse_cli_job(job: &JVal) -> (r: Option<CollectedJob>)
    ensures
        (match r {
            Some(j) => spec_parse_cli_job(*job) == Some(j@),
            None => spec_parse_cli_job(*job) is None,
        }),
{
    let title = match str_of(job.get("title")) {
        Some(t) => t,
        None => {
            return None;
        },
    };
    let source_id = match str_of(pick(job.get("id"), job.get("requisition_id"))) {
        Some(s) => s,
        None => {
            return None;
        },
    };
    Some(
        CollectedJob {
            company_name: str_of_or(job.get("company"), "Unknown"),
            title: title,
            url: str_of(job.get("apply_url")),
            location: str_of(job.get("location")),
            remote_type: str_of(job.get("workplace_type")),
            salary_min: None,
            salary_max: None,
            salary_currency: None,
            description: str_of(job.get("description_html")),
            source: "hiringcafe".to_owned(),
            source_id: source_id,
            raw_data: Some(job.to_text()),
        },
    )
}

/// The postings a list of native-API hits yields, hits without a usable
/// identity dropped.
pub open spec fn spec_api_results(items: Seq<JVal>) -> Seq<CollectedJobModel>
    decreases items.len(),
{
    if items.len() == 0 {
        Seq::empty()
    } else {
        spec_api_results(items.drop_last()) + (match spec_parse_api_job(items.last()) {
            Some(m) => seq![m],
            None => Seq::empty(),
        })
    }
}

/// The postings a list of fallback-tool objects yields.
pub open spec fn spec_cli_results(items: Seq<JVal>) -> Seq<CollectedJobModel>
    decreases items.len(),
{
    if items.len() == 0 {
        Seq::empty()
    } else {
        spec_cli_results(items.drop_last()) + (match spec_parse_cli_job(items.last()) {
            Some(m) => seq![m],
            None => Seq::empty(),
        })
    }
}

/// The views of a vector of postings.
pub open spec fn postings_view(v: Seq<CollectedJob>) -> Seq<CollectedJobModel> {
    v.map_values(|p: CollectedJob| p@)
}

/// Parses the native API search response: the `results` list is required;
/// each hit without a recognizable unique identifier is dropped from the
/// returned sequence (and so never counted as found).
#[verifier::loop_isolation(false)]
pub fn parse_results(data: &JVal) -> (r: Result<Vec<CollectedJob>, CollectError>)
    ensures
        (match spec_get(*data, "results"@) {
            Some(JVal::Arr(items)) => r matches Ok(jobs) && postings_view(jobs@)
                == spec_api_results(items@),
            _ => r matches Err(e) && e is MissingResults,
        }),
{
    let items = match data.get("results") {
        Some(JVal::Arr(items)) => items,
        _ => {
            return Err(CollectError::MissingResults);
        },
    };
    let mut jobs: Vec<CollectedJob> = Vec::new();
    let n = items.len();
    let mut i: usize = 0;
    while i < n
        invariant
            i <= n,
            n == items@.len(),
            postings_view(jobs@) == spec_api_results(items@.take(i as int)),
        decreases n - i,
    {
        let ghost prev = jobs@;
        match parse_api_job(&items[i]) {
            Some(job) => {
                jobs.push(job);
            },
            None => {},
        }
        proof {
            assert(items@.take(i + 1).drop_last() =~= items@.take(i as int));
            assert(items@.take(i + 1).last() == items@[i as int]);
            assert(postings_view(jobs@) =~= spec_api_results(items@.take(i + 1)));
        }
        i = i + 1;
    }
    proof {
        assert(items@.take(n as int) =~= items@);
    }
    Ok(jobs)
}

/// Parses the fallback tool's structured output: a missing or non-list
/// `jobs` field reads as empty, each object without a title or identifier
/// is dropped.
#[verifier::loop_isolation(false)]
pub fn parse_cli_results(data: &JVal) -> (r: Vec<CollectedJob>)
    ensures
        (match spec_get(*data, "jobs"@) {
            Some(JVal::Arr(items)) => postings_view(r@) == spec_cli_results(items@),
            _ => r@.len() == 0,
        }),
{
    let items = match data.get("jobs") {
        Some(JVal::Arr(items)) => items,
        _ => {
            return Vec::new();
        },
    };
    let mut jobs: Vec<CollectedJob> = Vec::new();
    let n = items.len();
    let mut i: usize = 0;
    while i < n
        invariant
            i <= n,
            n == items@.len(),
            postings_view(jobs@) == spec_cli_results(items@.take(i as int)),
        decreases n - i,
    {
        match parse_cli_job(&items[i]) {
            Some(job) => {
                jobs.push(job);
            },
            None => {},
        }
        proof {
            assert(items@.take(i + 1).drop_last() =~= items@.take(i as int));
            assert(items@.take(i + 1).last() == items@[i as int]);
            assert(postings_view(jobs@) =~= spec_cli_results(items@.take(i + 1)));
        }
        i = i + 1;
    }
    proof {
        assert(items@.take(n as int) =~= items@);
    }
    jobs
}

/// What the primary fetch's HTTP status and body yield: 429 is the
/// rate-limit signal, any other non-2xx status fails the run, and a 2xx
/// body parses to its document's normalized results — so success never
/// reads as rate limiting, and a fallback can only follow a 429.
pub fn collect_native_outcome(status: u16, body: &str) -> (r: Result<Vec<CollectedJob>, CollectError>)
    ensures
        status == 429 ==> (r matches Err(e) && e is RateLimited),
        !(200 <= status < 300) && status != 429 ==> (r matches Err(e) && e matches
            CollectError::HttpStatus(s) && s == status),
        200 <= status < 300 ==> (match json_of(body@) {
            Some(doc) => match spec_get(doc, "results"@) {
                Some(JVal::Arr(items)) => r matches Ok(jobs) && postings_view(jobs@)
                    == spec_api_results(items@),
                _ => r matches Err(e) && e is MissingResults,
            },
            None => r matches Err(e) && e is BadBody,
        }),
    {
    if status == 429 {
        return Err(CollectError::RateLimited);
    }
    if !(200 <= status && status < 300) {
        return Err(CollectError::HttpStatus(status));
    }
    match parse_json(body) {
        Some(doc) => match parse_results(&doc) {
            Ok(jobs) => Ok(jobs),
            Err(e) => Err(e),
        },
        None => Err(CollectError::BadBody),
    }
}

/// What the fallback tool's exit and output yield: a failing exit carries
/// the tool's error text, unparseable output fails the run, and parseable
/// output yields its document's normalized objects, a missing or non-list
/// `jobs` field reading as empty.
pub fn collect_cli_outcome(tool_ok: bool, stdout_text: &str, stderr_text: &str) -> (r: Result<
    Vec<CollectedJob>,
    CollectError,
>)
    ensures
        !tool_ok ==> (r matches Err(e) && e matches CollectError::ToolFailed(m) && m@
            == stderr_text@),
        tool_ok ==> (match json_of(stdout_text@) {
            Some(doc) => r matches Ok(jobs) && (match spec_get(doc, "jobs"@) {
                Some(JVal::Arr(items)) => postings_view(jobs@) == spec_cli_results(items@),
                _ => jobs@.len() == 0,
            }),
            None => r matches Err(e) && e is ToolOutput,
        }),
    {
    if !tool_ok {
        return Err(CollectError::ToolFailed(stderr_text.to_owned()));
    }
    match parse_json(stdout_text) {
        Some(doc) => Ok(parse_cli_results(&doc)),
        None => Err(CollectError::ToolOutput),
    }
}

} // verus!
