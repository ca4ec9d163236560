use boxrun::image::ImageRefError;
use boxrun::registry::{
    accept_header, auth_url, bearer_header, blob_requests, blob_url, manifest_url, pull_plan,
    validate_manifest, ConfigDescriptor, ImageManifest, LayerDescriptor, ManifestError,
    RawManifest,
};

#[test]
fn pull_plan_lays_out_both_requests() {
    let plan = pull_plan("busybox:latest").unwrap();
    assert_eq!(plan.name, "busybox");
    assert_eq!(plan.tag, "latest");
    assert_eq!(
        plan.auth_url,
        "https://auth.docker.io/token?service=registry.docker.io&scope=repository:library/busybox:pull"
    );
    assert_eq!(
        plan.manifest_url,
        "https://registry.hub.docker.com/v2/library/busybox/manifests/latest"
    );
    assert_eq!(
        plan.accept,
        "application/vnd.docker.distribution.manifest.v2+json"
    );
}

#[test]
fn pull_plan_rejects_malformed_references() {
    assert!(matches!(pull_plan("a:b:c"), Err(ImageRefError::Malformed)));
}

fn layer(digest: &str) -> LayerDescriptor {
    LayerDescriptor {
        media_type: "application/vnd.docker.image.rootfs.diff.tar.gzip".to_string(),
        size: 3,
        digest: digest.to_string(),
        urls: Vec::new(),
    }
}

fn config() -> ConfigDescriptor {
    ConfigDescriptor {
        media_type: "application/vnd.docker.container.image.v1+json".to_string(),
        size: 7,
        digest: "sha256:cfg".to_string(),
    }
}

#[test]
fn auth_url_names_service_and_scope() {
    let expected =
        "https://auth.docker.io/token?service=registry.docker.io&scope=repository:library/busybox:pull";
    assert_eq!(auth_url("busybox"), expected);
}

#[test]
fn manifest_url_names_image_and_tag() {
    assert_eq!(
        manifest_url("busybox", "latest"),
        "https://registry.hub.docker.com/v2/library/busybox/manifests/latest"
    );
}

#[test]
fn blob_url_names_image_and_digest() {
    assert_eq!(
        blob_url("busybox", "sha256:abc"),
        "https://registry.hub.docker.com/v2/library/busybox/blobs/sha256:abc"
    );
}

#[test]
fn headers_are_exact() {
    assert_eq!(bearer_header("tok"), "Bearer tok");
    assert_eq!(
        accept_header(),
        "application/vnd.docker.distribution.manifest.v2+json"
    );
}

#[test]
fn one_layer_manifest_plans_one_blob_fetch() {
    let manifest = ImageManifest {
        schema_version: 2,
        media_type: "application/vnd.docker.distribution.manifest.v2+json".to_string(),
        config: config(),
        layers: vec![layer("sha256:abc")],
    };
    let plan = blob_requests("busybox", &manifest);
    assert_eq!(plan.len(), 1);
    assert_eq!(
        plan[0],
        "https://registry.hub.docker.com/v2/library/busybox/blobs/sha256:abc"
    );
}

#[test]
fn blob_fetches_follow_manifest_order() {
    let manifest = ImageManifest {
        schema_version: 2,
        media_type: "application/vnd.docker.distribution.manifest.v2+json".to_string(),
        config: config(),
        layers: vec![layer("sha256:one"), layer("sha256:two"), layer("sha256:three")],
    };
    let plan = blob_requests("alpine", &manifest);
    assert_eq!(plan.len(), 3);
    assert_eq!(
        plan[0],
        "https://registry.hub.docker.com/v2/library/alpine/blobs/sha256:one"
    );
    assert_eq!(
        plan[1],
        "https://registry.hub.docker.com/v2/library/alpine/blobs/sha256:two"
    );
    assert_eq!(
        plan[2],
        "https://registry.hub.docker.com/v2/library/alpine/blobs/sha256:three"
    );
}

#[test]
fn complete_manifest_validates() {
    let raw = RawManifest {
        schema_version: Some(2),
        media_type: Some("application/vnd.docker.distribution.manifest.v2+json".to_string()),
        config: Some(config()),
        layers: Some(vec![layer("sha256:abc")]),
    };
    let m = validate_manifest(raw).unwrap();
    assert_eq!(m.schema_version, 2);
    assert_eq!(
        m.media_type,
        "application/vnd.docker.distribution.manifest.v2+json"
    );
    assert_eq!(m.config.digest, "sha256:cfg");
    assert_eq!(m.layers.len(), 1);
    assert_eq!(m.layers[0].digest, "sha256:abc");
}

#[test]
fn missing_config_defaults_to_empty() {
    let raw = RawManifest {
        schema_version: Some(2),
        media_type: Some("x".to_string()),
        config: None,
        layers: Some(Vec::new()),
    };
    let m = validate_manifest(raw).unwrap();
    assert_eq!(m.config.media_type, "");
    assert_eq!(m.config.digest, "");
    assert_eq!(m.config.size, 0);
}

#[test]
fn missing_layers_are_a_schema_mismatch() {
    let raw = RawManifest {
        schema_version: Some(2),
        media_type: Some("x".to_string()),
        config: Some(config()),
        layers: None,
    };
    assert!(matches!(
        validate_manifest(raw),
        Err(ManifestError::SchemaMismatch)
    ));
}

#[test]
fn missing_schema_version_is_a_schema_mismatch() {
    let raw = RawManifest {
        schema_version: None,
        media_type: Some("x".to_string()),
        config: Some(config()),
        layers: Some(Vec::new()),
    };
    assert!(matches!(
        validate_manifest(raw),
        Err(ManifestError::SchemaMismatch)
    ));
}
