use smithy_server::publish::{PackageHandle, Publish, PublishOutcome};
use std::path::PathBuf;

fn publish(name: &str, version: &str) -> Publish {
    Publish::new(PackageHandle::new(name, version), PathBuf::from("."))
}

#[test]
fn publish_runs_cargo() {
    let p = publish("aws-sdk-dynamodb", "0.0.22-alpha");
    assert_eq!(p.program, "cargo");
    assert_eq!(p.package_handle.name, "aws-sdk-dynamodb");
    assert_eq!(p.package_path, PathBuf::from("."));
}

#[test]
fn successful_publish() {
    let p = publish("aws-sdk-dynamodb", "0.0.22-alpha");
    assert_eq!(p.outcome(true, "", ""), PublishOutcome::Published);
}

#[test]
fn failed_publish() {
    let p = publish("something", "0.0.22-alpha");
    assert_eq!(
        p.outcome(false, "some stdout failure message\n", "some stderr failure message\n"),
        PublishOutcome::Failed
    );
}

#[test]
fn already_uploaded_publish() {
    let p = publish("aws-sdk-dynamodb", "0.0.22-alpha");
    assert_eq!(
        p.already_uploaded_message(),
        "error: crate version `0.0.22-alpha` is already uploaded"
    );
    let stderr = "Updating index\nerror: crate version `0.0.22-alpha` is already uploaded\n";
    assert_eq!(p.outcome(false, "", stderr), PublishOutcome::AlreadyPublished);
    let stdout = "error: crate version `0.0.22-alpha` is already uploaded";
    assert_eq!(p.outcome(false, stdout, ""), PublishOutcome::AlreadyPublished);
    let other_version = "error: crate version `0.0.21-alpha` is already uploaded";
    assert_eq!(p.outcome(false, other_version, ""), PublishOutcome::Failed);
}
