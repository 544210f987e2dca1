//! Publishing one package with `cargo publish`, and reading its result.
use vstd::prelude::*;
use vstd::string::*;
use std::path::PathBuf;
use crate::anchor::{contains, occurs_from};

verus! {

#[verifier::external_type_specification]
#[verifier::external_body]
pub struct ExPathBuf(std::path::PathBuf);

/// A package by name and version.
#[derive(Clone, Debug)]
pub struct PackageHandle {
    pub name: String,
    pub version: String,
}

impl PackageHandle {
    pub fn new(name: &str, version: &str) -> (r: PackageHandle)
        ensures
            r.name@ == name@,
            r.version@ == version@,
    {
        PackageHandle { name: String::from_str(name), version: String::from_str(version) }
    }
}

/// How a publish run ended.
#[derive(Clone, Copy, Debug, PartialEq, Eq, Structural)]
pub enum PublishOutcome {
    /// The command succeeded.
    Published,
    /// The command failed because this version was already uploaded.
    AlreadyPublished,
    /// The command failed for another reason.
    Failed,
}

/// A `cargo publish` of one package, run in the package's directory.
pub struct Publish {
    pub program: &'static str,
    pub package_handle: PackageHandle,
    pub package_path: PathBuf,
}

/// The message with which cargo refuses a version that is already uploaded.
pub open spec fn already_uploaded_text(version: Seq<char>) -> Seq<char> {
    "error: crate version `"@ + version + "` is already uploaded"@
}

impl Publish {
    pub fn new(package_handle: PackageHandle, package_path: PathBuf) -> (r: Publish)
        ensures
            r.program@ == "cargo"@,
            r.package_handle == package_handle,
            r.package_path == package_path,
    {
        Publish { program: "cargo", package_handle, package_path }
    }

    /// The message with which cargo refuses this package's version because
    /// it is already uploaded.
    pub fn already_uploaded_message(&self) -> (r: String)
        ensures
            r@ == already_uploaded_text(self.package_handle.version@),
    {
        let mut m = String::from_str("error: crate version `");
        m.append(self.package_handle.version.as_str());
        m.append("` is already uploaded");
        m
    }

    /// How the run ended, from whether the command succeeded and what it
    /// printed: a failure whose output holds the already-uploaded message is
    /// not an error.
    pub fn outcome(&self, succeeded: bool, stdout: &str, stderr: &str) -> (r: PublishOutcome)
        ensures
            succeeded ==> r == PublishOutcome::Published,
            !succeeded ==> (r == PublishOutcome::AlreadyPublished <==> (occurs_from(
                stdout@,
                already_uploaded_text(self.package_handle.version@),
                0,
            ) || occurs_from(stderr@, already_uploaded_text(self.package_handle.version@), 0))),
            !succeeded ==> r != PublishOutcome::Published,
    {
        if succeeded {
            return PublishOutcome::Published;
        }
        let message = self.already_uploaded_message();
        if contains(stdout, message.as_str()) || contains(stderr, message.as_str()) {
            PublishOutcome::AlreadyPublished
        } else {
            PublishOutcome::Failed
        }
    }
}

} // verus!
