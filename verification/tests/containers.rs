use ci::arch::Architecture;
use ci::config::{ArchFilter, ContainerConfig, ContainerRuntime, ContainerType};
use ci::containers::{
    choose_runtime, command_mentions_tool, container_build_args, container_run_args, default_build_tool,
    detect_native_workflow_stack, generated_native_container_image_name, generated_native_containerfile,
    native_container_base_image, native_container_cache_mounts, native_container_effective_type,
    native_container_enabled, normalized_rust_components, prepare_native_container_image, sanitize_tag,
    validate_container_image_ref, validate_container_packages, workflow_tag, ImagePlan,
};
use ci::environ::ContainerOverride;
use ci::maps::StringMap;
use ci::workflow::NativeStep;

fn strings(items: &[&str]) -> Vec<String> {
    items.iter().map(|item| item.to_string()).collect()
}

fn step(run: &str) -> NativeStep {
    NativeStep {
        name: None,
        run: Some(run.to_string()),
        uses: None,
        container: None,
        with: StringMap::new(),
        extra: StringMap::new(),
        shell: None,
        env: StringMap::new(),
        if_condition: None,
        working_directory: None,
        continue_on_error: false,
        timeout_minutes: None,
        readonly: None,
    }
}

#[test]
fn rust_component_aliases_normalize_to_rustup_components() {
    assert_eq!(
        normalized_rust_components(&strings(&["cargo-fmt", "cargo-clippy", "rust-src", "rustfmt"]))
            .expect("normalize components"),
        vec!["rustfmt", "clippy", "rust-src"]
    );
}

#[test]
fn generated_containerfile_installs_components_before_packages() {
    let content = generated_native_containerfile(
        "docker.io/library/rust:latest",
        &strings(&["htop"]),
        &strings(&["rustfmt", "clippy"]),
    );

    assert!(content.contains("RUN rustup component add 'rustfmt' 'clippy'"));
    assert!(content.contains("apt-get install -y --no-install-recommends 'htop'"));
    assert!(
        content.find("rustup component add").expect("components line")
            < content.find("apt-get install").expect("package line")
    );
}

#[test]
fn generated_container_image_name_uses_localhost_reference() {
    assert_eq!(
        generated_native_container_image_name("build", "linux/amd64"),
        "localhost/ci-build-linux-amd64:latest"
    );
}

#[test]
fn tags_hold_only_plain_characters() {
    assert_eq!(sanitize_tag("a b/c:d_e.f-g"), "a-b-c-d_e.f-g");
    assert_eq!(workflow_tag("sub/build"), "ci-sub-build");
    assert_eq!(sanitize_tag("é"), "-");
}

#[test]
fn odd_packages_components_and_images_are_refused() {
    assert!(validate_container_packages(&strings(&["htop", "lib++"])).is_ok());
    assert!(validate_container_packages(&strings(&["a b"])).is_err());
    assert!(normalized_rust_components(&strings(&["x y"])).is_err());
    assert!(validate_container_image_ref("docker.io/library/rust:latest").is_ok());
    assert!(validate_container_image_ref("bad image").is_err());
}

#[test]
fn containers_run_where_they_are_wanted() {
    let none = ContainerConfig::default();
    assert!(!native_container_enabled(&none, ContainerOverride::Auto));
    assert!(native_container_enabled(&none, ContainerOverride::Force));
    let set = ContainerConfig { kind: Some(ContainerType::Rust), ..ContainerConfig::default() };
    assert!(native_container_enabled(&set, ContainerOverride::Auto));
    assert!(!native_container_enabled(&set, ContainerOverride::Disable));
    let arch = ContainerConfig {
        arch: ArchFilter::Single(Architecture::host("x86_64")),
        ..ContainerConfig::default()
    };
    assert!(native_container_enabled(&arch, ContainerOverride::Auto));
}

#[test]
fn tools_tell_the_kind_of_project() {
    assert!(command_mentions_tool("set -e; cargo build", "cargo"));
    assert!(command_mentions_tool("/usr/bin/cargo test", "cargo"));
    assert!(!command_mentions_tool("echo cargoes", "cargo"));
    assert_eq!(default_build_tool(ContainerType::Rust), Some("cargo"));
    assert_eq!(default_build_tool(ContainerType::General), None);
    assert_eq!(detect_native_workflow_stack(None, &[step("npm test")]), Some(ContainerType::Node));
    assert_eq!(detect_native_workflow_stack(Some(ContainerType::Go), &[step("npm test")]), Some(ContainerType::Go));
    assert_eq!(detect_native_workflow_stack(None, &[step("true")]), None);
    let none = ContainerConfig::default();
    assert_eq!(native_container_effective_type(None, None, &none, None, &[step("cargo b")]), ContainerType::Rust);
    assert_eq!(native_container_effective_type(None, None, &none, None, &[step("true")]), ContainerType::General);
}

#[test]
fn images_are_used_or_built() {
    assert_eq!(native_container_base_image(&Some("own".to_string()), ContainerType::Rust), "own");
    assert_eq!(native_container_base_image(&None, ContainerType::Rust), "docker.io/library/rust:latest");
    let plain = ContainerConfig { image: Some("img".to_string()), ..ContainerConfig::default() };
    match prepare_native_container_image(&plain, ContainerType::General, "build", "linux/amd64", "/g/ci").expect("image") {
        ImagePlan::Use(image) => assert_eq!(image, "img"),
        _ => panic!("nothing to build"),
    }
    let extra = ContainerConfig { packages: strings(&["htop"]), ..ContainerConfig::default() };
    match prepare_native_container_image(&extra, ContainerType::Rust, "build", "linux/amd64", "/g/ci").expect("image") {
        ImagePlan::Build(image, file, content) => {
            assert_eq!(image, "localhost/ci-build-linux-amd64:latest");
            assert!(file.starts_with("/g/ci/"));
            assert!(content.starts_with("FROM docker.io/library/rust:latest\n"));
        }
        _ => panic!("an image has to be built"),
    }
    assert!(native_container_cache_mounts("/g/ci", "build", ContainerType::General).is_empty());
    assert!(!native_container_cache_mounts("/g/ci", "build", ContainerType::Rust).is_empty());
}

#[test]
fn podman_comes_before_docker() {
    assert_eq!(choose_runtime(ContainerRuntime::Auto, true, true).expect("runtime"), "podman");
    assert_eq!(choose_runtime(ContainerRuntime::Auto, false, true).expect("runtime"), "docker");
    assert_eq!(choose_runtime(ContainerRuntime::Docker, true, false).expect("runtime"), "docker");
    assert_eq!(
        choose_runtime(ContainerRuntime::Auto, false, false).expect_err("none").to_text(),
        "container workflow requires podman or docker"
    );
}

#[test]
fn container_commands_are_spelled_out() {
    assert_eq!(
        container_build_args("F", "ci-x", "/r", Some("linux/arm64")),
        strings(&["build", "--platform", "linux/arm64", "-f", "F", "-t", "ci-x", "/r"])
    );
    assert_eq!(container_build_args("F", "ci-x", "/r", None), strings(&["build", "-f", "F", "-t", "ci-x", "/r"]));
    assert_eq!(
        container_run_args("manual", "x", "/r", "ci-x"),
        strings(&[
            "run", "--rm", "-e", "CI=true", "-e", "CI_TOOL=ci", "-e", "CI_EVENT=manual", "-e", "CI_WORKFLOW=x", "-v",
            "/r:/work", "-w", "/work", "ci-x",
        ])
    );
}
