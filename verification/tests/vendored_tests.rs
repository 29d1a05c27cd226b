use user_data_importer::vendored::{collect_crate_file, is_skipped_subpath, std_crate_path,
    vendored_dir_matches, CollectCrateFiles, CrateFiles, IncludeCrateTargets, NormalizedName,
    VendoredCrate, Visibility};

#[test]
fn normalized_names() {
    assert_eq!(NormalizedName::from_crate_name("foo-bar.baz").as_str(), "foo_bar_baz");
    assert_eq!(NormalizedName::from_crate_name("plain").as_str(), "plain");
    assert!(NormalizedName::new("foo_bar").is_some());
    assert_eq!(NormalizedName::new("foo_bar").unwrap().as_str(), "foo_bar");
    assert!(NormalizedName::new("foo-bar").is_none());
    assert!(NormalizedName::new("foo.bar").is_none());
}

#[test]
fn vendored_crate_paths() {
    let id = VendoredCrate {
        name: String::from("serde"),
        version: semver::Version::new(1, 0, 219),
    };
    assert_eq!(std_crate_path(&id), "serde-1.0.219");
    assert_eq!(id.normalized_name().as_str(), "serde");
    let id = VendoredCrate {
        name: String::from("serde-json"),
        version: semver::Version::parse("0.5.0-alpha").unwrap(),
    };
    assert_eq!(std_crate_path(&id), "serde-json-0.5.0-alpha");
    assert_eq!(id.normalized_name().as_str(), "serde_json");
}

#[test]
fn vendored_dir_names() {
    assert!(vendored_dir_matches("serde-1.0.219", "serde-1.0.219"));
    assert!(vendored_dir_matches("serde-1.0.219", "serde"));
    assert!(!vendored_dir_matches("serde-1.0.219", "serde-1.0"));
    assert!(!vendored_dir_matches("serde-1.0.219", "other"));
    assert!(vendored_dir_matches("plain", "plain"));
}

#[test]
fn skipped_subpaths() {
    assert!(is_skipped_subpath(".devcontainer/README.md"));
    assert!(is_skipped_subpath(".vscode/settings.json"));
    assert!(is_skipped_subpath("target/debug/build.rs"));
    assert!(is_skipped_subpath("target"));
    assert!(!is_skipped_subpath("src/lib.rs"));
    assert!(!is_skipped_subpath("targets/x.rs"));
}

#[test]
fn default_visibility() {
    assert_eq!(Visibility::default(), Visibility::ThirdParty);
    assert!(IncludeCrateTargets::LibOnly != IncludeCrateTargets::LibAndBin);
}

#[test]
fn origin_messages() {
    assert_eq!(CollectCrateFiles::Internal.as_origin_msg(), "crate metadata and sources");
    assert_eq!(
        CollectCrateFiles::LibsOnly.as_origin_msg(),
        "`native_libs_roots` entry in `gnrt_config.toml`"
    );
}

#[test]
fn collecting_crate_files() {
    let mut files = CrateFiles::new();
    collect_crate_file(&mut files, CollectCrateFiles::Internal, "/c/src/lib.rs");
    collect_crate_file(&mut files, CollectCrateFiles::Internal, "/c/README.md");
    collect_crate_file(&mut files, CollectCrateFiles::ExternalSourcesAndInputs, "/d/gen.rs");
    collect_crate_file(&mut files, CollectCrateFiles::ExternalInputsOnly, "/d/skip.rs");
    collect_crate_file(&mut files, CollectCrateFiles::ExternalInputsOnly, "/d/data.json");
    collect_crate_file(
        &mut files,
        CollectCrateFiles::BuildScriptExternalSourcesAndInputs,
        "/e/build_helper.rs",
    );
    collect_crate_file(&mut files, CollectCrateFiles::LibsOnly, "/f/native.lib");
    collect_crate_file(&mut files, CollectCrateFiles::Internal, "/f/other.lib");
    collect_crate_file(&mut files, CollectCrateFiles::Internal, "/c/no_extension");
    assert_eq!(files.sources, vec![String::from("/c/src/lib.rs")]);
    assert_eq!(
        files.inputs,
        vec![String::from("/c/README.md"), String::from("/d/gen.rs"), String::from("/d/data.json")]
    );
    assert_eq!(files.native_libs, vec![String::from("/f/native.lib")]);
    assert!(files.build_script_sources.is_empty());
    assert_eq!(files.build_script_inputs, vec![String::from("/e/build_helper.rs")]);
}

#[test]
fn sort_and_dedup_orders_and_removes_repeats() {
    let mut files = CrateFiles::new();
    files.sources.push(String::from("b.rs"));
    files.sources.push(String::from("a.rs"));
    files.sources.push(String::from("b.rs"));
    files.sources.push(String::from("a/b.rs"));
    files.inputs.push(String::from("z.md"));
    files.inputs.push(String::from("z.md"));
    files.sort_and_dedup();
    assert_eq!(
        files.sources,
        vec![String::from("a.rs"), String::from("a/b.rs"), String::from("b.rs")]
    );
    assert_eq!(files.inputs, vec![String::from("z.md")]);
}
