use dimicon::{Error, ImageReference};

#[test]
fn test_simple_image() {
    let r = ImageReference::parse("nginx").unwrap();
    assert_eq!(r.registry(), "docker.io");
    assert_eq!(r.namespace(), "library");
    assert_eq!(r.name(), "nginx");
    assert!(r.tag().is_none());
    assert!(r.digest().is_none());
    assert!(r.is_docker_official());
}

#[test]
fn test_image_with_tag() {
    let r = ImageReference::parse("nginx:latest").unwrap();
    assert_eq!(r.name(), "nginx");
    assert_eq!(r.tag(), Some("latest"));
}

#[test]
fn test_user_image() {
    let r = ImageReference::parse("myuser/myimage:v1.0").unwrap();
    assert_eq!(r.registry(), "docker.io");
    assert_eq!(r.namespace(), "myuser");
    assert_eq!(r.name(), "myimage");
    assert_eq!(r.tag(), Some("v1.0"));
    assert!(!r.is_docker_official());
}

#[test]
fn test_ghcr_image() {
    let r = ImageReference::parse("ghcr.io/corespeed-io/myapp:latest").unwrap();
    assert_eq!(r.registry(), "ghcr.io");
    assert_eq!(r.namespace(), "corespeed-io");
    assert_eq!(r.name(), "myapp");
    assert_eq!(r.tag(), Some("latest"));
    assert!(r.is_ghcr());
}

#[test]
fn test_custom_registry() {
    let r = ImageReference::parse("registry.example.com/namespace/image:tag").unwrap();
    assert_eq!(r.registry(), "registry.example.com");
    assert_eq!(r.namespace(), "namespace");
    assert_eq!(r.name(), "image");
    assert_eq!(r.tag(), Some("tag"));
}

#[test]
fn test_multi_segment_without_registry() {
    let r = ImageReference::parse("myorg/team/app").unwrap();
    assert_eq!(r.registry(), "docker.io");
    assert_eq!(r.namespace(), "myorg/team");
    assert_eq!(r.name(), "app");
}

#[test]
fn test_digest() {
    let r = ImageReference::parse("nginx@sha256:abc123").unwrap();
    assert_eq!(r.name(), "nginx");
    assert!(r.tag().is_none());
    assert_eq!(r.digest(), Some("sha256:abc123"));
}

#[test]
fn test_tag_and_digest() {
    let r = ImageReference::parse("nginx:latest@sha256:abc123").unwrap();
    assert_eq!(r.tag(), Some("latest"));
    assert_eq!(r.digest(), Some("sha256:abc123"));
}

#[test]
fn test_registry_with_port() {
    let r = ImageReference::parse("localhost:5000/myimage").unwrap();
    assert_eq!(r.registry(), "localhost:5000");
    assert_eq!(r.name(), "myimage");
}

#[test]
fn test_docker_hub_repo_name() {
    let nginx = ImageReference::parse("nginx").unwrap();
    assert_eq!(nginx.docker_hub_repo_name().as_str(), "nginx");

    let user = ImageReference::parse("myuser/myimage").unwrap();
    assert_eq!(user.docker_hub_repo_name().as_str(), "myuser/myimage");
}

#[test]
fn test_display() {
    assert_eq!(ImageReference::parse("nginx").unwrap().to_string(), "nginx");
    assert_eq!(
        ImageReference::parse("nginx:latest").unwrap().to_string(),
        "nginx:latest"
    );
    assert_eq!(
        ImageReference::parse("user/app").unwrap().to_string(),
        "user/app"
    );
    assert_eq!(
        ImageReference::parse("ghcr.io/owner/app:v1").unwrap().to_string(),
        "ghcr.io/owner/app:v1"
    );
    assert_eq!(
        ImageReference::parse("nginx@sha256:abc").unwrap().to_string(),
        "nginx@sha256:abc"
    );
}

#[test]
fn test_invalid_inputs() {
    assert!(ImageReference::parse("").is_err());
    assert!(ImageReference::parse("   ").is_err());
    assert!(ImageReference::parse("foo/").is_err());
    assert!(ImageReference::parse("/bar").is_err());
    assert!(ImageReference::parse("foo//bar").is_err());
    assert!(ImageReference::parse("nginx:").is_err());
    assert!(ImageReference::parse("nginx@").is_err());
}

#[test]
fn test_from_str() {
    let r: ImageReference = "nginx:latest".parse().unwrap();
    assert_eq!(r.name(), "nginx");
    assert_eq!(r.tag(), Some("latest"));
}

#[test]
fn test_try_from() {
    let r = ImageReference::try_from("nginx").unwrap();
    assert!(r.is_docker_official());
}

fn fault_text(input: &str) -> &'static str {
    match ImageReference::parse(input) {
        Err(Error::InvalidImageReference(m)) => m,
        other => panic!("expected a refusal of {input:?}, got {other:?}"),
    }
}

#[test]
fn refusals_carry_their_reason() {
    assert_eq!(fault_text(""), "empty image reference");
    assert_eq!(fault_text(" \t\n\u{3000}"), "empty image reference");
    assert_eq!(fault_text("nginx@"), "empty digest");
    assert_eq!(fault_text("nginx:latest@"), "empty digest");
    assert_eq!(fault_text("nginx:"), "empty tag");
    assert_eq!(fault_text("user/app:"), "empty tag");
    assert_eq!(fault_text("foo/"), "empty path segment");
    assert_eq!(fault_text("/bar"), "empty path segment");
    assert_eq!(fault_text("foo//bar"), "empty path segment");
    assert_eq!(fault_text("@sha256:abc"), "empty path segment");
    assert_eq!(fault_text(":tag"), "empty path segment");
}

#[test]
fn surrounding_white_space_is_ignored() {
    let plain = ImageReference::parse("myuser/myimage:v1.0").unwrap();
    let padded = ImageReference::parse(" \t myuser/myimage:v1.0\u{a0}\u{2003}\n").unwrap();
    assert_eq!(plain, padded);
    assert_eq!(padded.name(), "myimage");
    assert_eq!(padded.tag(), Some("v1.0"));
}

#[test]
fn two_segments_with_registry() {
    let r = ImageReference::parse("registry.example.com/image").unwrap();
    assert_eq!(r.registry(), "registry.example.com");
    assert_eq!(r.namespace(), "library");
    assert_eq!(r.name(), "image");
    assert!(!r.is_docker_hub());
    assert!(!r.is_docker_official());

    let local = ImageReference::parse("localhost/image").unwrap();
    assert_eq!(local.registry(), "localhost");
    assert_eq!(local.namespace(), "library");

    let not_local = ImageReference::parse("localhostx/image").unwrap();
    assert_eq!(not_local.registry(), "docker.io");
    assert_eq!(not_local.namespace(), "localhostx");
}

#[test]
fn deep_paths_join_their_middle_segments() {
    let r = ImageReference::parse("reg.io:443/a/b/c/app:1@sha256:ff").unwrap();
    assert_eq!(r.registry(), "reg.io:443");
    assert_eq!(r.namespace(), "a/b/c");
    assert_eq!(r.name(), "app");
    assert_eq!(r.tag(), Some("1"));
    assert_eq!(r.digest(), Some("sha256:ff"));

    let hub = ImageReference::parse("org/a/b/app").unwrap();
    assert_eq!(hub.registry(), "docker.io");
    assert_eq!(hub.namespace(), "org/a/b");
    assert_eq!(hub.docker_hub_repo_name(), "org/a/b/app");
}

#[test]
fn colon_before_a_slash_is_a_port_unless_a_slash_precedes_it() {
    let port = ImageReference::parse("localhost:5000/ns/img").unwrap();
    assert_eq!(port.registry(), "localhost:5000");
    assert_eq!(port.namespace(), "ns");
    assert!(port.tag().is_none());

    let tag = ImageReference::parse("a/b:c/d").unwrap();
    assert_eq!(tag.namespace(), "a");
    assert_eq!(tag.name(), "b");
    assert_eq!(tag.tag(), Some("c/d"));
}

#[test]
fn the_last_at_sign_starts_the_digest() {
    let r = ImageReference::parse("img:t@x@sha256:1").unwrap();
    assert_eq!(r.digest(), Some("sha256:1"));
    assert_eq!(r.tag(), Some("t@x"));
}

#[test]
fn docker_hub_registries() {
    let index = ImageReference::parse("index.docker.io/library/redis").unwrap();
    assert!(index.is_docker_hub());
    assert!(index.is_docker_official());
    assert_eq!(index.to_string(), "redis");

    let explicit = ImageReference::parse("docker.io/user/app:2@sha256:0").unwrap();
    assert!(explicit.is_docker_hub());
    assert!(!explicit.is_ghcr());
    assert_eq!(explicit.to_string(), "user/app:2@sha256:0");

    let custom = ImageReference::parse("localhost:5000/myimage").unwrap();
    assert_eq!(custom.to_string(), "localhost:5000/library/myimage");
}

#[test]
fn non_ascii_references() {
    let r = ImageReference::parse("ünï.example/ñs/ïmage:täg").unwrap();
    assert_eq!(r.registry(), "ünï.example");
    assert_eq!(r.namespace(), "ñs");
    assert_eq!(r.name(), "ïmage");
    assert_eq!(r.tag(), Some("täg"));
}

#[test]
fn text_form_parses_back() {
    for input in [
        "nginx",
        "nginx:latest@sha256:abc",
        "user/app:v1",
        "myorg/team/app",
        "ghcr.io/owner/app:v1",
        "localhost:5000/myimage",
        "reg.io/n:s/img:t",
        "reg.io/a/b:c/d@x@y",
        "docker.io/library/redis",
    ] {
        let r = ImageReference::parse(input).unwrap();
        let back = ImageReference::parse(&r.to_string()).unwrap();
        assert_eq!(back, r, "{input}");
    }
}

#[test]
fn text_form_loses_what_it_drops() {
    // `index.docker.io` is shown as a Docker Hub image and read back as `docker.io`.
    let r = ImageReference::parse("index.docker.io/user/app").unwrap();
    let back = ImageReference::parse(&r.to_string()).unwrap();
    assert_eq!(back.registry(), "docker.io");
    // a Docker Hub namespace that looks like a registry is read back as one.
    let r = ImageReference::parse("docker.io/my.org/app").unwrap();
    let back = ImageReference::parse(&r.to_string()).unwrap();
    assert_eq!(back.registry(), "my.org");
}
