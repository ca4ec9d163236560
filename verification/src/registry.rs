//! Registry request planning: the authentication, manifest and blob URLs,
//! the request headers, and manifest validation.
//!
//! The registry host and the `library/` namespace are fixed: only official
//! single-segment image names are supported.
use vstd::prelude::*;
use crate::image::{parse_image, parse_image_spec, ImageRefError};

verus! {

/// Everything needed to begin pulling an image: the parsed reference, the
/// authentication URL, the manifest URL, and the manifest `Accept` header.
pub struct PullPlan {
    pub name: String,
    pub tag: String,
    pub auth_url: String,
    pub manifest_url: String,
    pub accept: String,
}

/// One filesystem layer of an image, identified by its digest. The order of
/// layers in a manifest is the order in which they are applied.
pub struct LayerDescriptor {
    pub media_type: String,
    pub size: i64,
    pub digest: String,
    pub urls: Vec<String>,
}

/// The image configuration blob's descriptor.
pub struct ConfigDescriptor {
    pub media_type: String,
    pub size: i64,
    pub digest: String,
}

/// A validated image manifest: schema metadata, the configuration
/// descriptor, and the ordered layer list.
pub struct ImageManifest {
    pub schema_version: i64,
    pub media_type: String,
    pub config: ConfigDescriptor,
    pub layers: Vec<LayerDescriptor>,
}

/// A manifest document as decoded, before validation: every field may be
/// missing.
pub struct RawManifest {
    pub schema_version: Option<i64>,
    pub media_type: Option<String>,
    pub config: Option<ConfigDescriptor>,
    pub layers: Option<Vec<LayerDescriptor>>,
}

/// A manifest document that lacks a required field.
#[derive(Debug, Clone, Copy, PartialEq, Eq)]
pub enum ManifestError {
    SchemaMismatch,
}

/// The token scope that grants pull access to one repository.
pub open spec fn auth_scope_spec(name: Seq<char>) -> Seq<char> {
    "repository:library/"@ + name + ":pull"@
}

/// The full authentication URL, query string included.
pub open spec fn auth_url_spec(name: Seq<char>) -> Seq<char> {
    "https://auth.docker.io/token?service=registry.docker.io&scope="@ + auth_scope_spec(name)
}

/// The manifest URL for an image name and tag.
pub open spec fn manifest_url_spec(name: Seq<char>, tag: Seq<char>) -> Seq<char> {
    "https://registry.hub.docker.com/v2/library/"@ + name + "/manifests/"@ + tag
}

/// The blob URL for an image name and a layer digest.
pub open spec fn blob_url_spec(name: Seq<char>, digest: Seq<char>) -> Seq<char> {
    "https://registry.hub.docker.com/v2/library/"@ + name + "/blobs/"@ + digest
}

/// The `Authorization` header value carrying a bearer token.
pub open spec fn bearer_spec(token: Seq<char>) -> Seq<char> {
    "Bearer "@ + token
}

/// Builds the authentication URL for an image name.
pub fn auth_url(name: &str) -> (r: String)
    ensures
        r@ == auth_url_spec(name@),
{
    let mut r = "https://auth.docker.io/token?service=registry.docker.io&scope=".to_owned();
    r.append("repository:library/");
    r.append(name);
    r.append(":pull");
    proof {
        assert(r@ =~= auth_url_spec(name@));
    }
    r
}

/// Builds the manifest URL for an image name and tag.
pub fn manifest_url(name: &str, tag: &str) -> (r: String)
    ensures
        r@ == manifest_url_spec(name@, tag@),
{
    let mut r = "https://registry.hub.docker.com/v2/library/".to_owned();
    r.append(name);
    r.append("/manifests/");
    r.append(tag);
    proof {
        assert(r@ =~= manifest_url_spec(name@, tag@));
    }
    r
}

/// Builds the blob URL for an image name and a layer digest.
pub fn blob_url(name: &str, digest: &str) -> (r: String)
    ensures
        r@ == blob_url_spec(name@, digest@),
{
    let mut r = "https://registry.hub.docker.com/v2/library/".to_owned();
    r.append(name);
    r.append("/blobs/");
    r.append(digest);
    proof {
        assert(r@ =~= blob_url_spec(name@, digest@));
    }
    r
}

/// Builds the `Authorization` header value for a token.
pub fn bearer_header(token: &str) -> (r: String)
    ensures
        r@ == bearer_spec(token@),
{
    let mut r = "Bearer ".to_owned();
    r.append(token);
    r
}

/// The `Accept` header value naming the manifest media type this runtime
/// understands.
pub fn accept_header() -> (r: String)
    ensures
        r@ == "application/vnd.docker.distribution.manifest.v2+json"@,
{
    "application/vnd.docker.distribution.manifest.v2+json".to_owned()
}

/// Checks a decoded manifest for its required fields. `schemaVersion`,
/// `mediaType` and `layers` must be present; a missing configuration
/// descriptor defaults to an empty one.
pub fn validate_manifest(raw: RawManifest) -> (r: Result<ImageManifest, ManifestError>)
    ensures
        match r {
            Ok(m) => {
                &&& raw.schema_version == Some(m.schema_version)
                &&& raw.media_type == Some(m.media_type)
                &&& raw.layers == Some(m.layers)
                &&& match raw.config {
                    Some(c) => m.config == c,
                    None => m.config.media_type@ == Seq::<char>::empty()
                        && m.config.digest@ == Seq::<char>::empty() && m.config.size == 0,
                }
            },
            Err(e) => {
                &&& raw.schema_version is None || raw.media_type is None || raw.layers is None
                &&& e == ManifestError::SchemaMismatch
            },
        },
        r is Ok <==> (raw.schema_version is Some && raw.media_type is Some
            && raw.layers is Some),
{
    match (raw.schema_version, raw.media_type, raw.layers) {
        (Some(schema_version), Some(media_type), Some(layers)) => {
            let config = match raw.config {
                Some(c) => c,
                None => ConfigDescriptor {
                    media_type: String::new(),
                    size: 0,
                    digest: String::new(),
                },
            };
            Ok(ImageManifest { schema_version, media_type, config, layers })
        },
        _ => Err(ManifestError::SchemaMismatch),
    }
}

/// Plans the start of an image pull: parses the reference and lays out the
/// authentication and manifest requests. Rejects exactly the references
/// that parsing rejects, before any request is owed.
pub fn pull_plan(image: &str) -> (r: Result<PullPlan, ImageRefError>)
    ensures
        match r {
            Ok(p) => {
                &&& parse_image_spec(image@) == Some((p.name@, p.tag@))
                &&& p.auth_url@ == auth_url_spec(p.name@)
                &&& p.manifest_url@ == manifest_url_spec(p.name@, p.tag@)
                &&& p.accept@ == "application/vnd.docker.distribution.manifest.v2+json"@
            },
            Err(e) => parse_image_spec(image@) is None && e == ImageRefError::Malformed,
        },
{
    let reference = parse_image(image)?;
    let auth_url = auth_url(reference.name.as_str());
    let manifest_url = manifest_url(reference.name.as_str(), reference.tag.as_str());
    let accept = accept_header();
    Ok(PullPlan { name: reference.name, tag: reference.tag, auth_url, manifest_url, accept })
}

/// The ordered blob fetch plan of a manifest: one URL per layer, in
/// manifest order.
pub fn blob_requests(name: &str, manifest: &ImageManifest) -> (r: Vec<String>)
    ensures
        r.len() == manifest.layers.len(),
        forall|i: int|
            0 <= i < r.len() ==> r[i]@ == blob_url_spec(name@, manifest.layers[i].digest@),
{
    let mut r: Vec<String> = Vec::new();
    let mut k: usize = 0;
    while k < manifest.layers.len()
        invariant
            k <= manifest.layers.len(),
            r.len() == k,
            forall|i: int|
                0 <= i < k ==> r[i]@ == blob_url_spec(name@, manifest.layers[i].digest@),
        decreases manifest.layers.len() - k,
    {
        let url = blob_url(name, manifest.layers[k].digest.as_str());
        r.push(url);
        k += 1;
    }
    r
}

} // verus!
