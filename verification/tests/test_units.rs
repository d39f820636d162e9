//! Unit tests for the parsers, the token exchange, the cache, the patch
//! encoding and the metric registration.

use base64::Engine as _;
use tolerable::cache::ResolutionCache;
use tolerable::image::{parse, ParseError};
use tolerable::json::Json;
use tolerable::manifest::{credential_file_path, get_version_2_arches, manifest_arches};
use tolerable::metrics::register_metrics;
use tolerable::mutation::{build_patches, toleration_value};
use tolerable::token::{parse_challenge, token_decision, token_from_response, TokenDecision};

#[test]
fn bare_name_is_normalized_under_library() {
    // default-registry legacy-name normalization
    let img = parse("nginx").unwrap();
    assert!(img.registry.is_none());
    assert_eq!(img.repository, "library/nginx");
    assert!(img.tag.is_none());

    let img = parse("nginx:latest").unwrap();
    assert!(img.registry.is_none());
    assert_eq!(img.repository, "library/nginx");
    assert_eq!(img.tag.as_deref(), Some("latest"));
    assert_eq!(img.effective_tag(), "latest");
}

#[test]
fn qualified_references_keep_their_parts() {
    let img = parse("quay.io/prometheus/node-exporter:v1.3.1").unwrap();
    assert_eq!(img.registry.as_deref(), Some("quay.io"));
    assert!(img.port.is_none());
    assert_eq!(img.repository, "prometheus/node-exporter");
    assert_eq!(img.tag.as_deref(), Some("v1.3.1"));
    assert_eq!(img.effective_host(), "quay.io");
    assert_eq!(img.logical_registry(), "quay.io");

    let img = parse("localhost:5000/myimage").unwrap();
    assert_eq!(img.registry.as_deref(), Some("localhost"));
    assert_eq!(img.port.as_deref(), Some("5000"));
    assert_eq!(img.repository, "myimage");
    assert_eq!(img.manifest_url(), "https://localhost:5000/v2/myimage/manifests/latest");

    // two further path segments make the first component a registry
    let img = parse("reg/a/b").unwrap();
    assert_eq!(img.registry.as_deref(), Some("reg"));
    assert_eq!(img.repository, "a/b");

    // a single bare word with one segment is a repository, never a host
    let img = parse("foo/bar").unwrap();
    assert!(img.registry.is_none());
    assert_eq!(img.repository, "foo/bar");
}

#[test]
fn docker_io_is_rewritten_at_the_wire() {
    let img = parse("docker.io/library/nginx:1.2").unwrap();
    assert_eq!(img.logical_registry(), "docker.io");
    assert_eq!(img.effective_host(), "registry-1.docker.io");
    assert_eq!(
        img.manifest_url(),
        "https://registry-1.docker.io/v2/library/nginx/manifests/1.2"
    );
}

#[test]
fn malformed_references_are_rejected() {
    assert_eq!(parse("").unwrap_err(), ParseError::Malformed);
    assert_eq!(parse("a//b").unwrap_err(), ParseError::Malformed);
    assert_eq!(parse("img:").unwrap_err(), ParseError::Malformed);
    assert_eq!(parse("host:port/img").unwrap_err(), ParseError::Malformed);
    assert_eq!(parse("a.b/").unwrap_err(), ParseError::Malformed);
}

#[test]
fn challenge_header_parses_by_the_fixed_grammar() {
    let header = "Bearer realm=\"https://auth.docker.io/token\",service=\"registry.docker.io\",scope=\"repository:library/nginx:pull\"";
    let ch = parse_challenge(header).unwrap();
    assert_eq!(ch.realm, "https://auth.docker.io/token");
    assert_eq!(ch.service, "registry.docker.io");
    assert_eq!(ch.scope, "repository:library/nginx:pull");
    assert_eq!(
        ch.token_url(),
        "https://auth.docker.io/token?service=registry.docker.io&scope=repository:library/nginx:pull"
    );

    assert!(parse_challenge("Basic realm=\"x\"").is_none());
    assert!(parse_challenge("Bearer realm=\"x\",service=\"y\"").is_none());
    assert!(parse_challenge("Bearer realm=\"\",service=\"y\",scope=\"z\"").is_none());
}

#[test]
fn probe_outcome_decides_the_token_step() {
    match token_decision(None) {
        TokenDecision::NotNeeded => {}
        _ => panic!("no header means no token needed"),
    }
    match token_decision(Some("Bearer realm=\"r\",service=\"s\",scope=\"c\"")) {
        TokenDecision::Request(url) => assert_eq!(url, "r?service=s&scope=c"),
        _ => panic!("a well-formed challenge must request a token"),
    }
    match token_decision(Some("nonsense")) {
        TokenDecision::Malformed => {}
        _ => panic!("an unrecognized challenge is a hard failure"),
    }
}

#[test]
fn token_endpoint_response_without_token_yields_none() {
    // the resolution then proceeds unauthenticated rather than aborting
    let with = Json::Obj(vec![("token".to_string(), Json::Str("abc123".to_string()))]);
    assert_eq!(token_from_response(&with).as_deref(), Some("abc123"));

    let without = Json::Obj(vec![("access_token".to_string(), Json::Str("x".to_string()))]);
    assert!(token_from_response(&without).is_none());

    let wrong_type = Json::Obj(vec![("token".to_string(), Json::UInt(5))]);
    assert!(token_from_response(&wrong_type).is_none());
}

#[test]
fn cache_returns_the_recorded_outcome_without_rework() {
    let mut cache = ResolutionCache::new();
    assert!(cache.lookup("nginx:latest").is_none());
    cache.insert(
        "nginx:latest".to_string(),
        Some(vec!["amd64".to_string(), "arm64".to_string()]),
    );
    // the second resolution of the same string is answered from the record
    let hit = cache.lookup("nginx:latest").unwrap();
    assert_eq!(
        hit.as_ref().unwrap(),
        &vec!["amd64".to_string(), "arm64".to_string()]
    );
    // a failed resolution is recorded too, and other keys stay unknown
    cache.insert("broken".to_string(), None);
    assert!(cache.lookup("broken").unwrap().is_none());
    assert!(cache.lookup("other").is_none());
}

#[test]
fn schema2_architectures_are_distinct_in_first_seen_order() {
    let entry = |a: &str| {
        Json::Obj(vec![(
            "platform".to_string(),
            Json::Obj(vec![("architecture".to_string(), Json::Str(a.to_string()))]),
        )])
    };
    let doc = Json::Obj(vec![(
        "manifests".to_string(),
        Json::Arr(vec![entry("amd64"), entry("arm64"), entry("amd64"), entry("s390x")]),
    )]);
    let arches = get_version_2_arches(&doc).unwrap();
    assert_eq!(
        arches,
        vec!["amd64".to_string(), "arm64".to_string(), "s390x".to_string()]
    );
}

#[test]
fn malformed_manifests_resolve_to_none() {
    // an entry without platform metadata invalidates the whole result
    let bad_entry = Json::Obj(vec![(
        "manifests".to_string(),
        Json::Arr(vec![Json::Obj(vec![])]),
    )]);
    assert!(get_version_2_arches(&bad_entry).is_none());

    // schema 1 without an architecture field
    let v1 = Json::Obj(vec![("schemaVersion".to_string(), Json::UInt(1))]);
    assert!(manifest_arches(&v1).is_none());

    // unexpected schema version
    let v3 = Json::Obj(vec![("schemaVersion".to_string(), Json::UInt(3))]);
    assert!(manifest_arches(&v3).is_none());

    // missing schema version
    assert!(manifest_arches(&Json::Obj(vec![])).is_none());
}

#[test]
fn toleration_value_overrides_or_appends_the_value_key() {
    let with_value = vec![
        ("key".to_string(), "arch".to_string()),
        ("value".to_string(), "placeholder".to_string()),
    ];
    let j = toleration_value(&with_value, "arm64");
    assert_eq!(j.to_text(), "{\"key\":\"arch\",\"value\":\"arm64\"}");

    let without_value = vec![("key".to_string(), "arch".to_string())];
    let j = toleration_value(&without_value, "arm64");
    assert_eq!(j.to_text(), "{\"key\":\"arch\",\"value\":\"arm64\"}");
}

#[test]
fn encoded_patch_is_real_base64_of_the_patch_text() {
    let matched = vec!["arm64".to_string()];
    let tol = vec![("key".to_string(), "arch".to_string())];
    let ops = build_patches(&matched, &tol, false);
    let text = tolerable::mutation::patches_text(&ops);
    let encoded = tolerable::mutation::encode_patches(&ops);
    let decoded = base64::engine::general_purpose::STANDARD
        .decode(encoded.as_bytes())
        .unwrap();
    assert_eq!(decoded, text.as_bytes());
    assert_ne!(encoded, text);
}

#[test]
fn credential_path_is_per_registry() {
    assert_eq!(
        credential_file_path("/etc/tolerable/creds", "docker.io"),
        "/etc/tolerable/creds/docker.io.toml"
    );
}

#[test]
fn app_info_gauge_registers_once() {
    let registry = prometheus::Registry::new();
    assert!(register_metrics(&registry));
    // the same collector cannot be registered twice
    assert!(!register_metrics(&registry));
}
