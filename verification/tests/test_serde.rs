//! Wire-format tests: the admission review documents as they travel.

use tolerable::json::Json;
use tolerable::models::{AdmissionResponse, AdmissionReview};

/// Turns a serde document into the library's JSON value.
fn to_lib_json(v: &serde_json::Value) -> Json {
    match v {
        serde_json::Value::Null => Json::Null,
        serde_json::Value::Bool(b) => Json::Bool(*b),
        serde_json::Value::Number(n) => {
            if let Some(u) = n.as_u64() {
                Json::UInt(u)
            } else if let Some(i) = n.as_i64() {
                Json::Int(i)
            } else {
                Json::Null
            }
        }
        serde_json::Value::String(s) => Json::Str(s.clone()),
        serde_json::Value::Array(a) => Json::Arr(a.iter().map(to_lib_json).collect()),
        serde_json::Value::Object(m) => {
            Json::Obj(m.iter().map(|(k, v)| (k.clone(), to_lib_json(v))).collect())
        }
    }
}

fn get_str<'a>(j: &'a Json, key: &str) -> &'a str {
    match j.get(key).expect("missing key") {
        Json::Str(s) => s.as_str(),
        _ => panic!("not a string"),
    }
}

const NOT_POD_REVIEW: &str = r#"{
  "apiVersion": "admission.k8s.io/v1",
  "kind": "AdmissionReview",
  "request": {
    "uid": "705ab4f5-6393-11e8-b7cc-42010a800002",
    "kind": {"group": "autoscaling", "version": "v1", "kind": "Scale"},
    "resource": {"group": "apps", "version": "v1", "resource": "deployments"},
    "subResource": "scale",
    "requestKind": {"group": "autoscaling", "version": "v1", "kind": "Scale"},
    "requestSubResource": "scale",
    "name": "my-deployment",
    "namespace": "my-namespace",
    "operation": "UPDATE",
    "userInfo": {
      "username": "admin",
      "uid": "014fbff9a07c",
      "groups": ["system:authenticated", "my-admin-group"]
    },
    "object": {"apiVersion": "autoscaling/v1", "kind": "Scale"},
    "oldObject": {"apiVersion": "autoscaling/v1", "kind": "Scale"},
    "options": {"apiVersion": "meta.k8s.io/v1", "kind": "UpdateOptions"},
    "dryRun": false
  }
}"#;

#[test]
fn test_noop() -> () {}

#[test]
fn deserialize_review_request() {
    // the review document as the api server sends it; see the kubernetes
    // docs for dynamic admission control, 'webhook request and response'
    let value: serde_json::Value = serde_json::from_str(NOT_POD_REVIEW).unwrap();
    let review = to_lib_json(&value);

    let request = review.get("request").unwrap();
    let object = request.get("object").unwrap();
    let old_object = request.get("oldObject").unwrap();
    let options = request.get("options").unwrap();

    assert_eq!(get_str(request, "uid"), "705ab4f5-6393-11e8-b7cc-42010a800002");
    assert_eq!(get_str(request.get("kind").unwrap(), "version"), "v1");
    assert_eq!(get_str(request.get("resource").unwrap(), "group"), "apps");
    assert_eq!(get_str(request.get("userInfo").unwrap(), "username"), "admin");
    assert_eq!(get_str(object, "kind"), "Scale");
    assert_eq!(get_str(old_object, "kind"), "Scale");
    assert_eq!(get_str(options, "kind"), "UpdateOptions");
}

#[test]
fn serialize_response_to_api() {
    let mut response = AdmissionResponse::default();

    response.uid = String::from("foo");

    // build the object before serializing.
    let mut review: AdmissionReview = AdmissionReview::default();
    review.response = Some(response);
    let json = review.to_json().to_text();
    assert_eq!(json, "{\"response\":{\"uid\":\"foo\",\"allowed\":false}}");
}

#[test]
fn serialize_json_escapes_and_numbers() {
    let v = Json::Obj(vec![
        ("text".to_string(), Json::Str("a\"b\\c\nd".to_string())),
        ("count".to_string(), Json::UInt(42)),
        ("shift".to_string(), Json::Int(-7)),
        ("flag".to_string(), Json::Bool(true)),
        ("nothing".to_string(), Json::Null),
        ("items".to_string(), Json::Arr(vec![Json::UInt(1), Json::UInt(2)])),
    ]);
    assert_eq!(
        v.to_text(),
        "{\"text\":\"a\\\"b\\\\c\\nd\",\"count\":42,\"shift\":-7,\"flag\":true,\"nothing\":null,\"items\":[1,2]}"
    );
}

#[test]
fn json_get_first_key_wins() {
    let v = Json::Obj(vec![
        ("k".to_string(), Json::UInt(1)),
        ("k".to_string(), Json::UInt(2)),
    ]);
    match v.get("k") {
        Some(Json::UInt(n)) => assert_eq!(*n, 1),
        _ => panic!("expected the first entry"),
    }
    assert!(v.get("missing").is_none());
    assert!(Json::Null.get("k").is_none());
}
