use sdnc::config::GoogleApiConfig;
use sdnc::recaptcha_verify::{answer_verdict, parse_json, recaptcha_request, token_verdict, Json};

fn google() -> GoogleApiConfig {
    GoogleApiConfig {
        recaptcha_site_key: "site-key".to_string(),
        google_api_key: "api-key".to_string(),
        google_cloud_project_name: "sdnc-project".to_string(),
    }
}

fn object(members: Vec<(&str, Json)>) -> Json {
    Json::Object(members.into_iter().map(|(k, v)| (k.to_string(), v)).collect())
}

#[test]
fn empty_token_is_refused_without_a_request() {
    assert!(matches!(recaptcha_request("", &google()), Ok(None)));
}

#[test]
fn request_posts_token_to_project_assessments() {
    let r = recaptcha_request("abc", &google()).unwrap().unwrap();
    assert_eq!(r.url, "https://recaptchaenterprise.googleapis.com/v1/projects/sdnc-project/assessments");
    assert_eq!(r.query, vec![("key".to_string(), "api-key".to_string())]);
    assert_eq!(
        r.body,
        r#"{"event":{"expectedAction":"invite","siteKey":"site-key","token":"abc"}}"#
    );
}

#[test]
fn request_body_matches_serde_json() {
    let token = "a\"b\\c\n";
    let r = recaptcha_request(token, &google()).unwrap().unwrap();
    let mut event = serde_json::Map::new();
    event.insert("token".to_string(), serde_json::Value::String(token.to_string()));
    event.insert("expectedAction".to_string(), serde_json::Value::String("invite".to_string()));
    event.insert("siteKey".to_string(), serde_json::Value::String("site-key".to_string()));
    let mut outer = serde_json::Map::new();
    outer.insert("event".to_string(), serde_json::Value::Object(event));
    let expected = serde_json::Value::Object(outer);
    assert_eq!(r.body, serde_json::to_string(&expected).unwrap());
}

#[test]
fn valid_token_verdict_is_read() {
    let answer = object(vec![
        ("name", Json::Str("projects/x/assessments/y".to_string())),
        ("tokenProperties", object(vec![("valid", Json::Bool(true)), ("action", Json::Str("invite".to_string()))])),
    ]);
    assert_eq!(token_verdict(&answer), Some(true));
}

#[test]
fn invalid_token_verdict_is_read() {
    let answer = object(vec![("tokenProperties", object(vec![("valid", Json::Bool(false))]))]);
    assert_eq!(token_verdict(&answer), Some(false));
}

#[test]
fn missing_or_odd_verdict_is_none() {
    assert_eq!(token_verdict(&object(vec![])), None);
    assert_eq!(token_verdict(&Json::Null), None);
    assert_eq!(token_verdict(&object(vec![("tokenProperties", Json::Bool(true))])), None);
    let number = object(vec![("tokenProperties", object(vec![("valid", Json::Number("1".to_string()))]))]);
    assert_eq!(token_verdict(&number), None);
    let arr = Json::Array(vec![Json::Bool(true)]);
    assert_eq!(token_verdict(&arr), None);
}

#[test]
fn answer_text_is_parsed_and_read() {
    let text = r#"{"name":"projects/p/assessments/a","tokenProperties":{"valid":true,"action":"invite"}}"#;
    assert_eq!(answer_verdict(text), Ok(Some(true)));
    assert_eq!(answer_verdict(r#"{"tokenProperties":{"valid":false}}"#), Ok(Some(false)));
    assert_eq!(answer_verdict(r#"{"tokenProperties":{"invalidReason":"MALFORMED"}}"#), Ok(None));
    assert_eq!(answer_verdict(r#"{"tokenProperties":{"valid":1}}"#), Ok(None));
}

#[test]
fn answer_that_is_not_json_is_an_error() {
    assert!(answer_verdict("<html>503</html>").is_err());
    assert!(answer_verdict("").is_err());
}

#[test]
fn parsed_document_keeps_members_and_numbers() {
    match parse_json(r#"{"b":[1,2.5,null],"a":"x"}"#).unwrap() {
        Json::Object(members) => {
            let keys: Vec<&str> = members.iter().map(|(k, _)| k.as_str()).collect();
            assert_eq!(keys, vec!["a", "b"]);
            match &members[1].1 {
                Json::Array(items) => {
                    assert!(matches!(&items[0], Json::Number(n) if n == "1"));
                    assert!(matches!(&items[1], Json::Number(n) if n == "2.5"));
                    assert!(matches!(&items[2], Json::Null));
                }
                _ => panic!("expected an array"),
            }
        }
        _ => panic!("expected an object"),
    }
}
