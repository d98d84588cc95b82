use unreal_rust_compile::invocation::{build_arguments_anew, build_arguments_for};

fn words(items: &[&str]) -> Vec<String> {
    items.iter().map(|s| s.to_string()).collect()
}

#[test]
fn arguments_wrap_the_callers_own() {
    let own = words(&["--release", "--lib"]);
    assert_eq!(
        build_arguments_for(&own, 4711),
        words(&[
            "rustc",
            "--release",
            "--lib",
            "--print",
            "link-args",
            "-Z",
            "unstable-options",
            "-C",
            "save-temps",
            "-Clink-arg=/VERSION:4711",
        ])
    );
}

#[test]
fn arguments_without_own_ones() {
    assert_eq!(
        build_arguments_for(&Vec::new(), 0),
        words(&[
            "rustc",
            "--print",
            "link-args",
            "-Z",
            "unstable-options",
            "-C",
            "save-temps",
            "-Clink-arg=/VERSION:0",
        ])
    );
}

#[test]
fn version_is_written_in_base_ten() {
    for version in [0u16, 7, 9, 10, 11, 99, 100, 101, 1000, 9999, 10000, 32768, 65535] {
        let arguments = build_arguments_for(&Vec::new(), version);
        assert_eq!(arguments[7], format!("-Clink-arg=/VERSION:{}", version));
    }
}

#[test]
fn fresh_arguments_differ_only_in_the_version() {
    let own = words(&["--release"]);
    let arguments = build_arguments_anew(&own);
    assert_eq!(arguments.len(), 9);
    assert_eq!(arguments[..8], build_arguments_for(&own, 0)[..8]);
    let version = arguments[8].strip_prefix("-Clink-arg=/VERSION:").unwrap();
    let number: u16 = version.parse().unwrap();
    assert_eq!(arguments, build_arguments_for(&own, number));
}
