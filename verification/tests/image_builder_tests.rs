use agentkernel::image_builder::{docker_build_args, validate_image_name, ImageBuilder, ImageNameError, LocalImage};
use std::collections::HashMap;

fn local(name: &str, id: &str) -> LocalImage {
    LocalImage {
        name: name.to_string(),
        image_id: id.to_string(),
        size_bytes: 0,
        built_at: "2024-01-01T00:00:00Z".to_string(),
        dockerfile: None,
        context: None,
        labels: HashMap::new(),
    }
}

#[test]
fn test_local_image_docker_ref() {
    let image = local("my-tools", "sha256:abc");
    assert_eq!(image.docker_ref(), "agentkernel-my-tools");
}

#[test]
fn test_image_builder_resolve_image() {
    let builder = ImageBuilder::with_images("/tmp".to_string(), vec![local("local-image", "sha256:abc")]);

    // Local image gets prefixed
    assert_eq!(builder.resolve_image("local-image"), "agentkernel-local-image");

    // Remote image stays as-is
    assert_eq!(builder.resolve_image("python:3.12-alpine"), "python:3.12-alpine");
}

#[test]
fn later_image_of_a_name_replaces_the_earlier() {
    let builder = ImageBuilder::with_images(
        "/tmp".to_string(),
        vec![local("tools", "sha256:old"), local("other", "sha256:o"), local("tools", "sha256:new")],
    );
    assert_eq!(builder.list().len(), 2);
    assert_eq!(builder.get("tools").unwrap().image_id, "sha256:new");
    assert!(builder.image_exists("other"));
    assert!(!builder.image_exists("missing"));
    assert!(builder.get("missing").is_none());
}

#[test]
fn insert_and_remove_by_name() {
    let mut builder = ImageBuilder::empty("/tmp".to_string());
    assert!(builder.list().is_empty());
    builder.insert(local("a", "1"));
    builder.insert(local("b", "2"));
    builder.insert(local("a", "3"));
    assert_eq!(builder.list().len(), 2);
    assert_eq!(builder.get("a").unwrap().image_id, "3");
    assert!(builder.remove("a"));
    assert!(!builder.remove("a"));
    assert!(!builder.image_exists("a"));
    assert_eq!(builder.resolve_image("a"), "a");
    assert_eq!(builder.resolve_image("b"), "agentkernel-b");
}

#[test]
fn image_names_are_validated() {
    assert_eq!(validate_image_name(""), Err(ImageNameError::Empty));
    assert_eq!(validate_image_name("my-tools_1.0"), Ok(()));
    assert_eq!(validate_image_name("outil-été"), Ok(()));
    assert_eq!(validate_image_name("bad name"), Err(ImageNameError::InvalidCharacters));
    assert_eq!(validate_image_name("a/b"), Err(ImageNameError::InvalidCharacters));
    assert_eq!(
        ImageNameError::InvalidCharacters.message(),
        "Image name can only contain alphanumeric characters, hyphens, underscores, and dots"
    );
    assert_eq!(ImageNameError::Empty.message(), "Image name cannot be empty");
}

#[test]
fn build_arguments_tag_and_label_the_image() {
    let args = docker_build_args("tools", "/ctx/Dockerfile", "/ctx");
    assert_eq!(
        args,
        vec![
            "build",
            "-t",
            "agentkernel-tools",
            "-f",
            "/ctx/Dockerfile",
            "--label",
            "agentkernel.managed=true",
            "--label",
            "agentkernel.name=tools",
            "/ctx",
        ]
    );
}

use agentkernel::image_builder::{built_image, default_dockerfile, parse_image_inspect, rmi_failure, ImageError};

#[test]
fn inspect_output_gives_id_and_size() {
    assert_eq!(parse_image_inspect("sha256:abc 12345\n"), ("sha256:abc".to_string(), 12345));
    assert_eq!(parse_image_inspect("  sha256:abc\t  7 extra"), ("sha256:abc".to_string(), 7));
    assert_eq!(parse_image_inspect("sha256:abc"), ("sha256:abc".to_string(), 0));
    assert_eq!(parse_image_inspect("sha256:abc big"), ("sha256:abc".to_string(), 0));
    assert_eq!(parse_image_inspect(""), (String::new(), 0));
    let img = built_image("tools", "sha256:def 99", "2024-01-01T00:00:00Z".to_string(), "/c/Dockerfile".to_string(), "/c".to_string());
    assert_eq!(img.image_id, "sha256:def");
    assert_eq!(img.size_bytes, 99);
    assert_eq!(img.docker_ref(), "agentkernel-tools");
}

#[test]
fn build_and_delete_errors() {
    assert_eq!(default_dockerfile("/ctx"), "/ctx/Dockerfile");
    assert_eq!(default_dockerfile("/ctx/"), "/ctx/Dockerfile");
    assert_eq!(ImageError::MissingContext("/nope".to_string()).message(), "Build context '/nope' does not exist");
    assert_eq!(
        ImageError::NoDockerfile("/c".to_string()).message(),
        "No Dockerfile found in '/c'. Specify one with --dockerfile"
    );
    assert_eq!(ImageError::BuildFailed("boom".to_string()).message(), "Docker build failed:\nboom");
    assert!(rmi_failure("Error: No such image: agentkernel-x").is_none());
    assert_eq!(
        rmi_failure("  permission denied \n").unwrap().message(),
        "Failed to remove Docker image: permission denied"
    );
    let builder = ImageBuilder::with_images("/tmp".to_string(), vec![local("tools", "1")]);
    assert_eq!(builder.delete_target("tools").unwrap(), "agentkernel-tools");
    assert_eq!(builder.delete_target("x").unwrap_err().message(), "Image 'x' not found");
}

#[test]
fn sync_forgets_missing_images() {
    let mut builder = ImageBuilder::with_images("/tmp".to_string(), vec![local("a", "1"), local("b", "2"), local("c", "3")]);
    assert_eq!(builder.names(), vec!["a", "b", "c"]);
    let removed = builder.forget_missing(&vec!["b".to_string(), "zzz".to_string()]);
    assert_eq!(removed, vec!["b".to_string()]);
    assert_eq!(builder.names(), vec!["a", "c"]);
}

fn sized(size_bytes: u64) -> LocalImage {
    let mut image = local("test", "sha256:abc");
    image.size_bytes = size_bytes;
    image
}

#[test]
fn test_local_image_format_size() {
    let image = sized(1024 * 1024 * 100); // 100MB
    assert_eq!(image.format_size(), "100.0MB");
}

#[test]
fn format_size_picks_the_largest_unit_reached() {
    assert_eq!(sized(0).format_size(), "0B");
    assert_eq!(sized(1023).format_size(), "1023B");
    assert_eq!(sized(1024).format_size(), "1.0KB");
    assert_eq!(sized(1536).format_size(), "1.5KB");
    assert_eq!(sized(1024 * 1024).format_size(), "1.0MB");
    assert_eq!(sized(1024 * 1024 * 1024).format_size(), "1.0GB");
    assert_eq!(sized(5 * 1024 * 1024 * 1024 + 512 * 1024 * 1024).format_size(), "5.5GB");
}

/// The display of a size as `{:.1}` prints the quotient as an `f64`.
fn float_display(size_bytes: u64) -> String {
    if size_bytes >= 1024 * 1024 * 1024 {
        format!("{:.1}GB", size_bytes as f64 / (1024.0 * 1024.0 * 1024.0))
    } else if size_bytes >= 1024 * 1024 {
        format!("{:.1}MB", size_bytes as f64 / (1024.0 * 1024.0))
    } else if size_bytes >= 1024 {
        format!("{:.1}KB", size_bytes as f64 / 1024.0)
    } else {
        format!("{}B", size_bytes)
    }
}

#[test]
fn format_size_agrees_with_float_display() {
    let mut sizes: Vec<u64> = Vec::new();
    for n in 0..5000u64 {
        sizes.push(n);
    }
    for k in 0..64u32 {
        let p = 1u64 << k;
        sizes.push(p);
        sizes.push(p - 1);
        sizes.push(p.wrapping_add(1));
        sizes.push(p | (p >> 1));
    }
    for unit in [1024u64, 1024 * 1024, 1024 * 1024 * 1024] {
        for tenths in 0..400u64 {
            // Values that fall on, or just around, a half tenth.
            let half = unit * (2 * tenths + 1) / 20;
            sizes.push(half);
            sizes.push(half + 1);
            sizes.push(half.saturating_sub(1));
        }
    }
    let mut x: u64 = 0x9E37_79B9_7F4A_7C15;
    for _ in 0..20000 {
        x ^= x << 13;
        x ^= x >> 7;
        x ^= x << 17;
        sizes.push(x);
        sizes.push(x >> 20);
        sizes.push(x >> 40);
    }
    sizes.push(u64::MAX);
    sizes.push((1u64 << 53) + 1);
    sizes.push((1u64 << 54) + 2);
    sizes.push((1u64 << 54) + 6);
    for size in sizes {
        assert_eq!(sized(size).format_size(), float_display(size), "size {}", size);
    }
}

#[test]
fn metadata_file_is_named_after_the_image() {
    let builder = ImageBuilder::empty("/home/u/.agentkernel/image-metadata".to_string());
    assert_eq!(builder.metadata_path("tools"), "/home/u/.agentkernel/image-metadata/tools.json");
    let rooted = ImageBuilder::empty("/meta/".to_string());
    assert_eq!(rooted.metadata_path("x"), "/meta/x.json");
}
