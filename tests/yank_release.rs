use smithy_server::yank_release::{
    filter_crates, CrateSet, PackageCategory, ReleaseCrate, ReleaseSource, YankReleaseArgs,
};
use std::path::PathBuf;

fn release() -> Vec<ReleaseCrate> {
    let entry = |name: &str, category| ReleaseCrate {
        name: name.to_string(),
        version: "0.1.0".to_string(),
        category,
    };
    vec![
        entry("aws-config", PackageCategory::AwsRuntime),
        entry("aws-sdk-s3", PackageCategory::AwsSdk),
        entry("aws-smithy-types", PackageCategory::SmithyRuntime),
        entry("aws-sdk-sts", PackageCategory::AwsSdk),
        entry("other", PackageCategory::Unknown),
    ]
}

fn names(crates: &[ReleaseCrate]) -> Vec<&str> {
    crates.iter().map(|c| c.name.as_str()).collect()
}

#[test]
fn all_keeps_every_crate() {
    let kept = filter_crates(CrateSet::All, release());
    assert_eq!(
        names(&kept),
        vec!["aws-config", "aws-sdk-s3", "aws-smithy-types", "aws-sdk-sts", "other"]
    );
}

#[test]
fn all_aws_sdk_keeps_sdk_crates() {
    let kept = filter_crates(CrateSet::AllAwsSdk, release());
    assert_eq!(names(&kept), vec!["aws-config", "aws-sdk-s3", "aws-sdk-sts"]);
}

#[test]
fn generated_aws_sdk_keeps_generated_crates() {
    let kept = filter_crates(CrateSet::GeneratedAwsSdk, release());
    assert_eq!(names(&kept), vec!["aws-sdk-s3", "aws-sdk-sts"]);
    assert!(filter_crates(CrateSet::GeneratedAwsSdk, Vec::new()).is_empty());
}

#[test]
fn exactly_one_release_source() {
    let args = YankReleaseArgs {
        github_release_tag: Some("release-2022-10-26".to_string()),
        versions_toml: None,
        crate_set: None,
    };
    assert!(matches!(args.release_source(), Ok(ReleaseSource::Tag(t)) if t == "release-2022-10-26"));
    let args = YankReleaseArgs {
        github_release_tag: None,
        versions_toml: Some(PathBuf::from("versions.toml")),
        crate_set: Some(CrateSet::AllAwsSdk),
    };
    assert!(matches!(args.release_source(), Ok(ReleaseSource::File(_))));
    let both = YankReleaseArgs {
        github_release_tag: Some("t".to_string()),
        versions_toml: Some(PathBuf::from("v")),
        crate_set: None,
    };
    assert!(both.release_source().is_err());
    let neither = YankReleaseArgs { github_release_tag: None, versions_toml: None, crate_set: None };
    assert!(neither.release_source().is_err());
}
