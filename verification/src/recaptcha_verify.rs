//! Checking a reCAPTCHA token with Google's reCAPTCHA Enterprise API.
//!
//! The HTTP exchange runs outside this crate: it sends the request built here and
//! hands back the parsed JSON answer, whose verdict is read here.
use vstd::prelude::*;

use crate::config::GoogleApiConfig;

verus! {

#[verifier::external_type_specification]
#[verifier::external_body]
pub struct ExJsonError(serde_json::Error);

#[verifier::external_type_specification]
#[verifier::external_body]
pub struct ExJsonValue(serde_json::Value);

/// A JSON document, as `serde_json::Value` holds it. An object lists its members
/// in order; one read by `serde_json` lists them sorted by key, each key once.
pub enum Json {
    Null,
    Bool(bool),
    /// A number, as the text of its decimal form.
    Number(String),
    Str(String),
    Array(Vec<Json>),
    Object(Vec<(String, Json)>),
}

/// The mathematical value of a JSON document.
pub enum JsonValue {
    Null,
    Bool(bool),
    Number(Seq<char>),
    Str(Seq<char>),
    Array(Seq<JsonValue>),
    Object(Seq<(Seq<char>, JsonValue)>),
}

/// The value of a document.
pub open spec fn json_view(doc: Json) -> JsonValue
    decreases doc,
{
    match doc {
        Json::Null => JsonValue::Null,
        Json::Bool(b) => JsonValue::Bool(b),
        Json::Number(n) => JsonValue::Number(n@),
        Json::Str(s) => JsonValue::Str(s@),
        Json::Array(items) => JsonValue::Array(items_view(items@)),
        Json::Object(members) => JsonValue::Object(members_view(members@)),
    }
}

/// The values of a sequence of documents.
pub open spec fn items_view(items: Seq<Json>) -> Seq<JsonValue>
    decreases items,
{
    if items.len() == 0 {
        Seq::empty()
    } else {
        seq![json_view(items[0])] + items_view(items.drop_first())
    }
}

/// The values of an object's members.
pub open spec fn members_view(members: Seq<(String, Json)>) -> Seq<(Seq<char>, JsonValue)>
    decreases members,
{
    if members.len() == 0 {
        Seq::empty()
    } else {
        seq![(members[0].0@, json_view(members[0].1))] + members_view(members.drop_first())
    }
}

impl View for Json {
    type V = JsonValue;

    open spec fn view(&self) -> JsonValue {
        json_view(*self)
    }
}

proof fn lemma_members_view(members: Seq<(String, Json)>)
    ensures
        members_view(members).len() == members.len(),
        forall|i: int|
            0 <= i < members.len() ==> #[trigger] members_view(members)[i] == (
            members[i].0@,
            json_view(members[i].1),
        ),
    decreases members.len(),
{
    if members.len() > 0 {
        let rest = members.drop_first();
        lemma_members_view(rest);
        assert forall|i: int| 0 <= i < members.len() implies #[trigger] members_view(members)[i] == (
        members[i].0@, json_view(members[i].1)) by {
            if i > 0 {
                assert(rest[i - 1] == members[i]);
            }
        }
    }
}

/// Whether a document holds no number.
pub open spec fn numberless(doc: JsonValue) -> bool
    decreases doc,
{
    match doc {
        JsonValue::Number(_) => false,
        JsonValue::Array(items) => forall|i: int| 0 <= i < items.len() ==> numberless(#[trigger] items[i]),
        JsonValue::Object(members) => forall|i: int|
            0 <= i < members.len() ==> numberless(#[trigger] members[i].1),
        _ => true,
    }
}

/// What `serde_json::from_str::<serde_json::Value>` gives for `text`, read back as
/// a document: `None` where it returns an error.
pub uninterp spec fn json_document(text: Seq<char>) -> Option<JsonValue>;

/// What `serde_json::to_string` writes for the `serde_json::Value` holding `doc`
/// (each number built from its text with `serde_json::Number::from_str`); `None`
/// where a number's text is refused or writing fails.
pub uninterp spec fn json_text(doc: JsonValue) -> Option<Seq<char>>;

/// Converts a parsed `serde_json::Value` into a document, variant by variant; no
/// contract, its only caller is `parse_json`.
#[verifier::external_body]
fn document_of_value(value: &serde_json::Value) -> Json {
    match value {
        serde_json::Value::Null => Json::Null,
        serde_json::Value::Bool(b) => Json::Bool(*b),
        serde_json::Value::Number(n) => Json::Number(n.to_string()),
        serde_json::Value::String(s) => Json::Str(s.clone()),
        serde_json::Value::Array(items) => Json::Array(items.iter().map(document_of_value).collect()),
        serde_json::Value::Object(m) => Json::Object(m.iter().map(|(k, v)| (k.clone(), document_of_value(v))).collect()),
    }
}

/// Converts a document into a `serde_json::Value`, variant by variant, a number
/// through `serde_json::Number::from_str`; no contract, its only caller is
/// `json_to_string`.
#[verifier::external_body]
fn value_of_document(doc: &Json) -> Result<serde_json::Value, serde_json::Error> {
    Ok(match doc {
        Json::Null => serde_json::Value::Null,
        Json::Bool(b) => serde_json::Value::Bool(*b),
        Json::Number(n) => serde_json::Value::Number(n.parse()?),
        Json::Str(s) => serde_json::Value::String(s.clone()),
        Json::Array(items) => serde_json::Value::Array(items.iter().map(value_of_document).collect::<Result<_, _>>()?),
        Json::Object(m) => serde_json::Value::Object(m.iter().map(|(k, v)| Ok((k.clone(), value_of_document(v)?))).collect::<Result<_, serde_json::Error>>()?),
    })
}

/// Parses JSON text with `serde_json::from_str::<serde_json::Value>` and reads the
/// value back as a document. Claims only that the outcome is `json_document(text)`;
/// the error is `serde_json`'s message.
#[verifier::external_body]
pub fn parse_json(text: &str) -> (doc: Result<Json, String>)
    ensures
        match doc {
            Ok(j) => json_document(text@) == Some(j@),
            Err(_) => json_document(text@) is None,
        },
{
    match serde_json::from_str::<serde_json::Value>(text) {
        Ok(value) => Ok(document_of_value(&value)),
        Err(e) => Err(e.to_string()),
    }
}

/// Writes a document as JSON text: builds its `serde_json::Value` and calls
/// `serde_json::to_string`. Claims that the outcome is `json_text(doc)`, and that
/// a document without numbers is always written (`to_string` of a `Value` does
/// not fail, and only a number's text can be refused on the way to one).
#[verifier::external_body]
fn json_to_string(doc: &Json) -> (text: Result<String, serde_json::Error>)
    ensures
        match text {
            Ok(t) => json_text(doc@) == Some(t@),
            Err(_) => json_text(doc@) is None,
        },
        numberless(doc@) ==> text is Ok,
{
    let value = value_of_document(doc)?;
    serde_json::to_string(&value)
}

/// The `Display` text of a `serde_json` error, through `ToString::to_string`.
/// Nothing is claimed of the text.
#[verifier::external_body]
fn json_error_text(error: &serde_json::Error) -> String {
    error.to_string()
}

/// The value of the first member named `key`, or `Null` when there is none.
pub open spec fn member(entries: Seq<(Seq<char>, JsonValue)>, key: Seq<char>) -> JsonValue
    decreases entries.len(),
{
    if entries.len() == 0 {
        JsonValue::Null
    } else if entries[0].0 == key {
        entries[0].1
    } else {
        member(entries.drop_first(), key)
    }
}

proof fn lemma_member_at(entries: Seq<(Seq<char>, JsonValue)>, key: Seq<char>, i: int)
    requires
        0 <= i <= entries.len(),
        forall|j: int| 0 <= j < i ==> entries[j].0 != key,
    ensures
        i == entries.len() ==> member(entries, key) == JsonValue::Null,
        i < entries.len() && entries[i].0 == key ==> member(entries, key) == entries[i].1,
    decreases i,
{
    if i > 0 {
        let rest = entries.drop_first();
        assert forall|j: int| 0 <= j < i - 1 implies rest[j].0 != key by {
            assert(rest[j] == entries[j + 1]);
        }
        lemma_member_at(rest, key, i - 1);
        if i < entries.len() {
            assert(rest[i - 1] == entries[i]);
        }
    }
}

/// `value[key]` as `serde_json` reads it: the member of an object, and `Null` for
/// a missing member or a value that is no object.
pub open spec fn json_index(value: JsonValue, key: Seq<char>) -> JsonValue {
    match value {
        JsonValue::Object(entries) => member(entries, key),
        _ => JsonValue::Null,
    }
}

/// The verdict of an assessment: `tokenProperties.valid` when it is a boolean.
pub open spec fn assessment_verdict(response: JsonValue) -> Option<bool> {
    match json_index(json_index(response, "tokenProperties"@), "valid"@) {
        JsonValue::Bool(valid) => Some(valid),
        _ => None,
    }
}

/// The verdict is the boolean at `tokenProperties.valid`, whatever else the
/// answer holds, and there is none when that member is missing or no boolean.
pub proof fn lemma_verdict_is_the_valid_member(doc: JsonValue)
    ensures
        json_index(json_index(doc, "tokenProperties"@), "valid"@) matches JsonValue::Bool(b)
            ==> assessment_verdict(doc) == Some(b),
        !(json_index(json_index(doc, "tokenProperties"@), "valid"@) is Bool) ==> assessment_verdict(doc) is None,
{
}

/// A member found in an object is the value of the first member with that key.
pub proof fn lemma_json_index_finds_first_member(
    entries: Seq<(Seq<char>, JsonValue)>,
    key: Seq<char>,
    i: int,
)
    requires
        0 <= i < entries.len(),
        entries[i].0 == key,
        forall|j: int| 0 <= j < i ==> entries[j].0 != key,
    ensures
        json_index(JsonValue::Object(entries), key) == entries[i].1,
{
    lemma_member_at(entries, key, i);
}

#[verifier::loop_isolation(false)]
fn lookup<'a>(value: &'a Json, key: &str) -> (found: Option<&'a Json>)
    ensures
        match found {
            Some(v) => v@ == json_index(value@, key@),
            None => json_index(value@, key@) == JsonValue::Null,
        },
{
    match value {
        Json::Object(entries) => {
            let wanted = String::from_str(key);
            let n = entries.len();
            proof {
                lemma_members_view(entries@);
            }
            for i in 0..n
                invariant
                    n == entries@.len(),
                    wanted@ == key@,
                    forall|j: int| 0 <= j < i ==> members_view(entries@)[j].0 != key@,
            {
                if entries[i].0 == wanted {
                    proof {
                        lemma_member_at(members_view(entries@), key@, i as int);
                    }
                    return Some(&entries[i].1);
                }
            }
            proof {
                lemma_member_at(members_view(entries@), key@, n as int);
            }
            None
        },
        _ => None,
    }
}

/// Reads the verdict of an assessment answer: `tokenProperties.valid`, or `None`
/// when that is missing or not a boolean.
pub fn token_verdict(response: &Json) -> (verdict: Option<bool>)
    ensures
        verdict == assessment_verdict(response@),
        json_index(json_index(response@, "tokenProperties"@), "valid"@) matches JsonValue::Bool(b)
            ==> verdict == Some(b),
        !(json_index(json_index(response@, "tokenProperties"@), "valid"@) is Bool) ==> verdict is None,
{
    match lookup(response, "tokenProperties") {
        Some(properties) => match lookup(properties, "valid") {
            Some(Json::Bool(valid)) => Some(*valid),
            _ => None,
        },
        None => None,
    }
}

/// Reads the verdict from the text of an assessment answer: `Err` with
/// `serde_json`'s message where the text is not JSON, else the verdict of the
/// parsed document.
pub fn answer_verdict(text: &str) -> (verdict: Result<Option<bool>, String>)
    ensures
        match json_document(text@) {
            Some(doc) => verdict == Ok::<Option<bool>, String>(assessment_verdict(doc)),
            None => verdict is Err,
        },
        json_document(text@) matches Some(doc) ==> (json_index(json_index(doc, "tokenProperties"@), "valid"@) matches JsonValue::Bool(b) ==> verdict == Ok::<Option<bool>, String>(Some(b))),
        json_document(text@) matches Some(doc) ==> (!(json_index(json_index(doc, "tokenProperties"@), "valid"@) is Bool) ==> verdict == Ok::<Option<bool>, String>(None)),
{
    match parse_json(text) {
        Ok(doc) => Ok(token_verdict(&doc)),
        Err(e) => Err(e),
    }
}

/// An HTTP POST to the reCAPTCHA Enterprise API.
pub struct RecaptchaRequest {
    pub url: String,
    /// Query parameters, as (name, value) pairs.
    pub query: Vec<(String, String)>,
    /// The JSON request body.
    pub body: String,
}

/// The assessments URL of a Google Cloud project.
pub open spec fn assessments_url(project: Seq<char>) -> Seq<char> {
    "https://recaptchaenterprise.googleapis.com/v1/projects/"@ + project + "/assessments"@
}

/// The assessment request document for a token: the token, the expected action
/// "invite" and the site key, under "event".
pub open spec fn assessment_document(token: Seq<char>, site_key: Seq<char>) -> JsonValue {
    JsonValue::Object(
        seq![
            ("event"@, JsonValue::Object(
                seq![
                    ("token"@, JsonValue::Str(token)),
                    ("expectedAction"@, JsonValue::Str("invite"@)),
                    ("siteKey"@, JsonValue::Str(site_key)),
                ],
            )),
        ],
    )
}

/// The request document puts, under "event", the token unchanged, the expected
/// action "invite" and the site key unchanged, for tokens and keys of any length.
pub proof fn lemma_assessment_document_members(token: Seq<char>, site_key: Seq<char>)
    ensures
        json_index(json_index(assessment_document(token, site_key), "event"@), "token"@)
            == JsonValue::Str(token),
        json_index(json_index(assessment_document(token, site_key), "event"@), "expectedAction"@)
            == JsonValue::Str("invite"@),
        json_index(json_index(assessment_document(token, site_key), "event"@), "siteKey"@)
            == JsonValue::Str(site_key),
{
    reveal_strlit("event");
    reveal_strlit("token");
    reveal_strlit("expectedAction");
    reveal_strlit("siteKey");
    let inner = seq![
        ("token"@, JsonValue::Str(token)),
        ("expectedAction"@, JsonValue::Str("invite"@)),
        ("siteKey"@, JsonValue::Str(site_key)),
    ];
    let outer = seq![("event"@, JsonValue::Object(inner))];
    lemma_member_at(outer, "event"@, 0);
    assert("token"@ != "expectedAction"@) by {
        assert("token"@.len() != "expectedAction"@.len());
    }
    assert("token"@ != "siteKey"@) by {
        assert("token"@.len() != "siteKey"@.len());
    }
    assert("expectedAction"@ != "siteKey"@) by {
        assert("expectedAction"@.len() != "siteKey"@.len());
    }
    lemma_member_at(inner, "token"@, 0);
    lemma_member_at(inner, "expectedAction"@, 1);
    lemma_member_at(inner, "siteKey"@, 2);
}

fn assessment_request_document(token: &str, site_key: &String) -> (doc: Json)
    ensures
        doc@ == assessment_document(token@, site_key@),
{
    let mut inner: Vec<(String, Json)> = Vec::new();
    inner.push((String::from_str("token"), Json::Str(String::from_str(token))));
    inner.push((String::from_str("expectedAction"), Json::Str(String::from_str("invite"))));
    inner.push((String::from_str("siteKey"), Json::Str(site_key.clone())));
    let mut outer: Vec<(String, Json)> = Vec::new();
    let ghost inner_view = inner@;
    outer.push((String::from_str("event"), Json::Object(inner)));
    proof {
        lemma_members_view(inner_view);
        lemma_members_view(outer@);
        assert(members_view(inner_view) =~= seq![
            ("token"@, JsonValue::Str(token@)),
            ("expectedAction"@, JsonValue::Str("invite"@)),
            ("siteKey"@, JsonValue::Str(site_key@)),
        ]);
        assert(json_view(outer@[0].1) == JsonValue::Object(members_view(inner_view)));
    }
    let doc = Json::Object(outer);
    proof {
        assert(members_view(outer@) =~= seq![("event"@, json_view(outer@[0].1))]);
    }
    doc
}

/// Builds the assessment request for `token`. An empty token is refused without
/// asking Google (`Ok(None)`: not valid). Any other token gives a request that
/// posts the JSON text of the assessment document to the project's assessments
/// URL, authenticated by the API key as the `key` query parameter.
pub fn recaptcha_request(token: &str, google: &GoogleApiConfig) -> (request: Result<
    Option<RecaptchaRequest>,
    String,
>)
    ensures
        token@.len() == 0 ==> request matches Ok(None),
        token@.len() != 0 ==> (request matches Ok(Some(r)) && {
            &&& json_text(assessment_document(token@, google.recaptcha_site_key@)) == Some(r.body@)
            &&& r.url@ == assessments_url(google.google_cloud_project_name@)
            &&& r.query@.len() == 1
            &&& r.query@[0].0@ == "key"@
            &&& r.query@[0].1@ == google.google_api_key@
        }),
{
    if token.is_empty() {
        return Ok(None);
    }
    let doc = assessment_request_document(token, &google.recaptcha_site_key);
    proof {
        let event_members = seq![
            ("token"@, JsonValue::Str(token@)),
            ("expectedAction"@, JsonValue::Str("invite"@)),
            ("siteKey"@, JsonValue::Str(google.recaptcha_site_key@)),
        ];
        assert(numberless(event_members[0].1));
        assert(numberless(event_members[1].1));
        assert(numberless(event_members[2].1));
        assert(numberless(JsonValue::Object(event_members)));
        let top = seq![("event"@, JsonValue::Object(event_members))];
        assert(numberless(top[0].1));
        assert(numberless(JsonValue::Object(top)));
    }
    let body = match json_to_string(&doc) {
        Ok(t) => t,
        Err(e) => return Err(json_error_text(&e)),
    };
    let mut url = String::from_str("https://recaptchaenterprise.googleapis.com/v1/projects/");
    url.append(google.google_cloud_project_name.as_str());
    url.append("/assessments");
    let mut query: Vec<(String, String)> = Vec::new();
    query.push((String::from_str("key"), google.google_api_key.clone()));
    Ok(Some(RecaptchaRequest { url, query, body }))
}

} // verus!
