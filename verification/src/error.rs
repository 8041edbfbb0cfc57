//! The ways in which generation fails.

use vstd::prelude::*;
use vstd::string::*;
use crate::request::Artifact;

verus! {

/// Why generation stopped. Each failure names the path it concerns and
/// carries the reason that the host gave.
#[derive(Clone, Debug, PartialEq, Eq)]
pub enum GeneratorError {
    /// The container probe could not be run at all.
    EnvironmentProbe { cause: String },
    /// `path` has no parent directory.
    ParentLookup { path: String },
    /// The directory `path` could not be created.
    DirCreate { path: String, cause: String },
    /// The symbolic link at `link`, pointing to `target`, could not be
    /// created.
    SymlinkCreate { target: String, link: String, cause: String },
    /// The file at `path` could not be written.
    FileWrite { artifact: Artifact, path: String, cause: String },
    /// The path of the running executable could not be found out.
    SelfPath { cause: String },
}

/// An error as the specifications see it.
pub enum ErrorView {
    EnvironmentProbe { cause: Seq<char> },
    ParentLookup { path: Seq<char> },
    DirCreate { path: Seq<char>, cause: Seq<char> },
    SymlinkCreate { target: Seq<char>, link: Seq<char>, cause: Seq<char> },
    FileWrite { artifact: Artifact, path: Seq<char>, cause: Seq<char> },
    SelfPath { cause: Seq<char> },
}

impl ErrorView {
    /// What went wrong, in words, with the path concerned.
    pub open spec fn message(self) -> Seq<char> {
        match self {
            ErrorView::EnvironmentProbe { cause } => "systemd-detect-virt call failed: "@ + cause,
            ErrorView::ParentLookup { path } => "Couldn't get parent of "@ + path,
            ErrorView::DirCreate { path, .. } => "Failed to create directory "@ + path,
            ErrorView::SymlinkCreate { target, link, .. } => "Failed to create symlink at "@ + link
                + " (pointing to "@ + target + ")"@,
            ErrorView::FileWrite { artifact, path, .. } => spec_write_failure(artifact) + path,
            ErrorView::SelfPath { .. } => "Couldn't get path to generator executable"@,
        }
    }

    /// The reason that the host gave, where the failure came from the host.
    pub open spec fn cause(self) -> Seq<char> {
        match self {
            ErrorView::EnvironmentProbe { cause } => cause,
            ErrorView::ParentLookup { .. } => Seq::empty(),
            ErrorView::DirCreate { cause, .. } => cause,
            ErrorView::SymlinkCreate { cause, .. } => cause,
            ErrorView::FileWrite { cause, .. } => cause,
            ErrorView::SelfPath { cause } => cause,
        }
    }
}

/// A result as the specifications see it: what it holds, value or error,
/// by its view.
pub open spec fn spec_outcome<T: DeepView, E: DeepView>(result: Result<T, E>) -> Result<T::V, E::V> {
    match result {
        Ok(value) => Ok(value.deep_view()),
        Err(error) => Err(error.deep_view()),
    }
}

/// How the message about a file of the kind `artifact` begins.
pub open spec fn spec_write_failure(artifact: Artifact) -> Seq<char> {
    match artifact {
        Artifact::SwapUnit => "Failed to write a swap service into "@,
        Artifact::ServiceTemplate => "Failed to write a device service into "@,
        Artifact::ModulesLoad => "Failed to write configuration for loading a module at "@,
    }
}

impl View for GeneratorError {
    type V = ErrorView;

    open spec fn view(&self) -> ErrorView {
        match self {
            GeneratorError::EnvironmentProbe { cause } => ErrorView::EnvironmentProbe {
                cause: cause@,
            },
            GeneratorError::ParentLookup { path } => ErrorView::ParentLookup { path: path@ },
            GeneratorError::DirCreate { path, cause } => ErrorView::DirCreate {
                path: path@,
                cause: cause@,
            },
            GeneratorError::SymlinkCreate { target, link, cause } => ErrorView::SymlinkCreate {
                target: target@,
                link: link@,
                cause: cause@,
            },
            GeneratorError::FileWrite { artifact, path, cause } => ErrorView::FileWrite {
                artifact: *artifact,
                path: path@,
                cause: cause@,
            },
            GeneratorError::SelfPath { cause } => ErrorView::SelfPath { cause: cause@ },
        }
    }
}

impl DeepView for GeneratorError {
    type V = ErrorView;

    open spec fn deep_view(&self) -> ErrorView {
        self@
    }
}

/// How the message about a file of the kind `artifact` begins.
fn write_failure(artifact: Artifact) -> (text: &'static str)
    ensures
        text@ == spec_write_failure(artifact),
{
    match artifact {
        Artifact::SwapUnit => "Failed to write a swap service into ",
        Artifact::ServiceTemplate => "Failed to write a device service into ",
        Artifact::ModulesLoad => "Failed to write configuration for loading a module at ",
    }
}

impl GeneratorError {
    /// What went wrong, in words, with the path concerned.
    pub fn message(&self) -> (text: String)
        ensures
            text@ == self@.message(),
    {
        match self {
            GeneratorError::EnvironmentProbe { cause } => {
                let mut text = String::from_str("systemd-detect-virt call failed: ");
                text.append(cause.as_str());
                text
            },
            GeneratorError::ParentLookup { path } => {
                let mut text = String::from_str("Couldn't get parent of ");
                text.append(path.as_str());
                text
            },
            GeneratorError::DirCreate { path, .. } => {
                let mut text = String::from_str("Failed to create directory ");
                text.append(path.as_str());
                text
            },
            GeneratorError::SymlinkCreate { target, link, .. } => {
                let mut text = String::from_str("Failed to create symlink at ");
                text.append(link.as_str());
                text.append(" (pointing to ");
                text.append(target.as_str());
                text.append(")");
                text
            },
            GeneratorError::FileWrite { artifact, path, .. } => {
                let mut text = String::from_str(write_failure(*artifact));
                text.append(path.as_str());
                text
            },
            GeneratorError::SelfPath { .. } => String::from_str(
                "Couldn't get path to generator executable",
            ),
        }
    }

    /// The reason that the host gave, where the failure came from the host;
    /// empty otherwise.
    pub fn cause(&self) -> (text: String)
        ensures
            text@ == self@.cause(),
    {
        match self {
            GeneratorError::EnvironmentProbe { cause } => cause.clone(),
            GeneratorError::ParentLookup { .. } => String::new(),
            GeneratorError::DirCreate { cause, .. } => cause.clone(),
            GeneratorError::SymlinkCreate { cause, .. } => cause.clone(),
            GeneratorError::FileWrite { cause, .. } => cause.clone(),
            GeneratorError::SelfPath { cause } => cause.clone(),
        }
    }
}

} // verus!
