//! Behaviour tests: manifest normalization and the admission decision.

use tolerable::json::Json;
use tolerable::manifest::{manifest_arches, manifest_target};
use tolerable::models::{
    AdmissionRequest, AdmissionReview, GroupVersionKind, GroupVersionResource, Operation,
};
use tolerable::mutation::{mutate_review, MutationConfig};

/// A schema-2 manifest list with one entry per architecture, as the registry
/// answers a manifest request for a multi-platform image.
fn schema2_manifest(arches: &[&str]) -> Json {
    let manifests: Vec<Json> = arches
        .iter()
        .map(|a| {
            Json::Obj(vec![(
                "platform".to_string(),
                Json::Obj(vec![("architecture".to_string(), Json::Str((*a).to_string()))]),
            )])
        })
        .collect();
    Json::Obj(vec![
        ("schemaVersion".to_string(), Json::UInt(2)),
        ("manifests".to_string(), Json::Arr(manifests)),
    ])
}

fn pod_review(images: &[&str], with_tolerations: bool) -> AdmissionReview {
    let containers: Vec<Json> = images
        .iter()
        .map(|im| Json::Obj(vec![("image".to_string(), Json::Str((*im).to_string()))]))
        .collect();
    let mut spec_entries = vec![("containers".to_string(), Json::Arr(containers))];
    if with_tolerations {
        spec_entries.push(("tolerations".to_string(), Json::Arr(vec![])));
    }
    let object = Json::Obj(vec![
        (
            "metadata".to_string(),
            Json::Obj(vec![("name".to_string(), Json::Str("test-pod".to_string()))]),
        ),
        ("spec".to_string(), Json::Obj(spec_entries)),
    ]);
    review_for("Pod", Some(object))
}

fn review_for(kind: &str, object: Option<Json>) -> AdmissionReview {
    AdmissionReview {
        request: Some(AdmissionRequest {
            uid: "705ab4f5-6393-11e8-b7cc-42010a800002".to_string(),
            kind: GroupVersionKind {
                group: "".to_string(),
                version: "v1".to_string(),
                kind: kind.to_string(),
            },
            resource: GroupVersionResource {
                group: "".to_string(),
                version: "v1".to_string(),
                resource: "pods".to_string(),
            },
            sub_resource: None,
            request_kind: None,
            request_sub_resource: None,
            name: None,
            namespace: None,
            operation: Operation::CREATE,
            user_info: Json::Obj(vec![]),
            object,
            old_object: None,
            dry_run: None,
            options: None,
        }),
        response: None,
    }
}

fn arm64_config() -> MutationConfig {
    MutationConfig {
        supported_architectures: vec!["arm64".to_string()],
        tolerations: vec![
            ("key".to_string(), "arch".to_string()),
            ("operator".to_string(), "Equal".to_string()),
            ("effect".to_string(), "NoSchedule".to_string()),
        ],
    }
}

#[test]
fn test_manifest_validator_v2() {
    let expected = "arm64".to_string();
    let target = manifest_target("nginx:latest").unwrap();
    assert_eq!(
        target.url,
        "https://registry-1.docker.io/v2/library/nginx/manifests/latest"
    );
    let manifest = schema2_manifest(&["amd64", "arm64"]);
    let results = manifest_arches(&manifest).unwrap();
    assert!(results.contains(&expected));
}

#[test]
fn test_manifest_validator_v1() {
    let expected = "amd64".to_string();
    let target = manifest_target("nginx:latest").unwrap();
    assert_eq!(target.credential_registry, "docker.io");
    let manifest = Json::Obj(vec![
        ("schemaVersion".to_string(), Json::UInt(1)),
        ("architecture".to_string(), Json::Str("amd64".to_string())),
    ]);
    let results = match manifest_arches(&manifest) {
        Some(s) => s,
        None => vec![],
    };
    assert!(results.contains(&expected));
}

#[test]
fn test_mutate_handler_non_pod() {
    let review = review_for(
        "Scale",
        Some(Json::Obj(vec![("kind".to_string(), Json::Str("Scale".to_string()))])),
    );
    let (resp_review, ops) = mutate_review(&review, &vec![], Some(&arm64_config()));
    let rs_resp = resp_review.response.unwrap();
    assert_eq!(&rs_resp.allowed, &true);
    assert!(&rs_resp.patch.is_none());
    assert!(ops.is_empty());
}

#[test]
fn test_mutate_handler_as_pod_not_arm() {
    let review = pod_review(&["nginx:latest"], false);
    // the image resolved to amd64 only, so no arm64 toleration applies
    let resolutions = vec![Some(vec!["amd64".to_string()])];
    let (resp_review, _ops) = mutate_review(&review, &resolutions, Some(&arm64_config()));
    let rs_resp = resp_review.response.unwrap();
    assert_eq!(&rs_resp.allowed, &true);
    assert!(&rs_resp.patch.is_none());
}

#[test]
fn test_mutate_handler_as_pod_matches_arm() {
    let review = pod_review(&["nginx:latest"], false);
    let resolutions = vec![Some(vec!["amd64".to_string(), "arm64".to_string()])];
    let (resp_review, _ops) = mutate_review(&review, &resolutions, Some(&arm64_config()));
    let rs_resp = resp_review.response.unwrap();
    assert_eq!(&rs_resp.allowed, &true);
    assert!(&rs_resp.patch.is_some());
}

#[test]
fn nginx_scenario_one_toleration_patch() {
    // a schema-2 answer holding amd64 and arm64 yields both architectures,
    // and a single-image pod against an arm64 target queues one toleration
    let manifest = schema2_manifest(&["amd64", "arm64"]);
    let arches = manifest_arches(&manifest).unwrap();
    assert_eq!(arches, vec!["amd64".to_string(), "arm64".to_string()]);

    let review = pod_review(&["nginx:latest"], false);
    let resolutions = vec![Some(arches)];
    let (resp_review, ops) = mutate_review(&review, &resolutions, Some(&arm64_config()));
    let rs_resp = resp_review.response.unwrap();
    // the pod had no tolerations, so the array-creating operation precedes
    // the single append, and the appended toleration carries the matched
    // architecture as its value
    assert_eq!(ops.len(), 2);
    let text = tolerable::mutation::patches_text(&ops);
    assert_eq!(
        text,
        "[{\"op\":\"add\",\"path\":\"/spec/tolerations\",\"value\":[]},\
         {\"op\":\"add\",\"path\":\"/spec/tolerations/-\",\"value\":\
         {\"key\":\"arch\",\"operator\":\"Equal\",\"effect\":\"NoSchedule\",\"value\":\"arm64\"}}]"
    );
    assert!(rs_resp.patch.is_some());
}

#[test]
fn pod_with_existing_tolerations_gets_no_init_operation() {
    let review = pod_review(&["nginx:latest"], true);
    let resolutions = vec![Some(vec!["arm64".to_string()])];
    let (_resp_review, ops) = mutate_review(&review, &resolutions, Some(&arm64_config()));
    assert_eq!(ops.len(), 1);
    let text = tolerable::mutation::patches_text(&ops);
    assert!(text.starts_with("[{\"op\":\"add\",\"path\":\"/spec/tolerations/-\""));
}

#[test]
fn pod_without_config_passes_unpatched() {
    let review = pod_review(&["nginx:latest"], false);
    let resolutions = vec![Some(vec!["arm64".to_string()])];
    let (resp_review, ops) = mutate_review(&review, &resolutions, None);
    let rs_resp = resp_review.response.unwrap();
    assert_eq!(rs_resp.allowed, true);
    assert!(rs_resp.patch.is_none());
    assert!(rs_resp.status.is_none());
    assert!(ops.is_empty());
}

#[test]
fn pod_without_spec_is_allowed_with_status() {
    let review = review_for("Pod", Some(Json::Obj(vec![])));
    let (resp_review, ops) = mutate_review(&review, &vec![], Some(&arm64_config()));
    let rs_resp = resp_review.response.unwrap();
    assert_eq!(rs_resp.allowed, true);
    assert!(rs_resp.patch.is_none());
    let status = rs_resp.status.unwrap();
    assert_eq!(status.len(), 1);
    assert_eq!(status[0].code, Some(400));
    assert_eq!(status[0].message.as_deref(), Some("Pod has no spec?"));
    assert!(ops.is_empty());
}

#[test]
fn pod_without_containers_is_allowed_with_status() {
    let object = Json::Obj(vec![("spec".to_string(), Json::Obj(vec![]))]);
    let review = review_for("Pod", Some(object));
    let (resp_review, _ops) = mutate_review(&review, &vec![], Some(&arm64_config()));
    let rs_resp = resp_review.response.unwrap();
    assert_eq!(rs_resp.allowed, true);
    let status = rs_resp.status.unwrap();
    assert_eq!(status[0].message.as_deref(), Some("PodSpec has no containers?"));
}

#[test]
fn unresolved_image_abandons_the_match() {
    let review = pod_review(&["one", "two"], false);
    // the second image's resolution failed, so no architecture matches
    let resolutions = vec![Some(vec!["arm64".to_string()]), None];
    let (resp_review, ops) = mutate_review(&review, &resolutions, Some(&arm64_config()));
    let rs_resp = resp_review.response.unwrap();
    assert_eq!(rs_resp.allowed, true);
    assert!(rs_resp.patch.is_none());
    assert!(ops.is_empty());
}

#[test]
fn every_container_must_support_the_architecture() {
    let review = pod_review(&["one", "two"], false);
    let both = vec![
        Some(vec!["arm64".to_string()]),
        Some(vec!["amd64".to_string(), "arm64".to_string()]),
    ];
    let (_r, ops) = mutate_review(&review, &both, Some(&arm64_config()));
    assert_eq!(ops.len(), 2);

    let one_misses = vec![
        Some(vec!["arm64".to_string()]),
        Some(vec!["amd64".to_string()]),
    ];
    let (_r, ops) = mutate_review(&review, &one_misses, Some(&arm64_config()));
    assert!(ops.is_empty());
}

#[test]
fn multiple_target_architectures_queue_multiple_tolerations() {
    let config = MutationConfig {
        supported_architectures: vec!["amd64".to_string(), "arm64".to_string()],
        tolerations: vec![("key".to_string(), "arch".to_string())],
    };
    let review = pod_review(&["img"], false);
    let resolutions = vec![Some(vec!["amd64".to_string(), "arm64".to_string()])];
    let (_r, ops) = mutate_review(&review, &resolutions, Some(&config));
    // one creating operation, then one append per matched architecture
    assert_eq!(ops.len(), 3);
    let text = tolerable::mutation::patches_text(&ops);
    assert!(text.contains("\"value\":\"amd64\""));
    assert!(text.contains("\"value\":\"arm64\""));
}
