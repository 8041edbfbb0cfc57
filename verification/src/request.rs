//! What the generator asks of its host, and what the host answers.
//!
//! The generator touches neither the file system nor other processes. It
//! hands out one request at a time; the host carries it out and reports
//! back with a response.

use vstd::prelude::*;

verus! {

/// The kinds of file that the generator writes.
#[derive(Clone, Copy, Debug, PartialEq, Eq, Structural)]
pub enum Artifact {
    /// The swap unit of one device.
    SwapUnit,
    /// The service template shared by all devices.
    ServiceTemplate,
    /// The directive that loads the kernel module at boot.
    ModulesLoad,
}

/// One thing for the host to do.
#[derive(Clone, Debug, PartialEq, Eq)]
pub enum Request {
    /// Print `line` on standard output.
    Announce { line: String },
    /// Find out whether the process runs inside a container.
    DetectContainer,
    /// Find out the absolute path of the running executable.
    ResolveExecutable,
    /// Write `contents` to the file at `path`, replacing what it held.
    WriteFile { artifact: Artifact, path: String, contents: String },
    /// Create the directory `path` and every missing ancestor of it.
    CreateDirAll { path: String },
    /// Create a symbolic link at `link` whose content is `target`, as given.
    Symlink { target: String, link: String },
}

/// A request as the specifications see it.
pub enum RequestView {
    Announce { line: Seq<char> },
    DetectContainer,
    ResolveExecutable,
    WriteFile { artifact: Artifact, path: Seq<char>, contents: Seq<char> },
    CreateDirAll { path: Seq<char> },
    Symlink { target: Seq<char>, link: Seq<char> },
}

impl RequestView {
    /// Whether carrying out the request changes the file system.
    pub open spec fn touches_file_system(self) -> bool {
        self is WriteFile || self is CreateDirAll || self is Symlink
    }

    /// Whether the request writes a file of the kind `artifact`.
    pub open spec fn writes(self, artifact: Artifact) -> bool {
        self matches RequestView::WriteFile { artifact: written, .. } && written == artifact
    }
}

impl View for Request {
    type V = RequestView;

    open spec fn view(&self) -> RequestView {
        match self {
            Request::Announce { line } => RequestView::Announce { line: line@ },
            Request::DetectContainer => RequestView::DetectContainer,
            Request::ResolveExecutable => RequestView::ResolveExecutable,
            Request::WriteFile { artifact, path, contents } => RequestView::WriteFile {
                artifact: *artifact,
                path: path@,
                contents: contents@,
            },
            Request::CreateDirAll { path } => RequestView::CreateDirAll { path: path@ },
            Request::Symlink { target, link } => RequestView::Symlink {
                target: target@,
                link: link@,
            },
        }
    }
}

impl DeepView for Request {
    type V = RequestView;

    open spec fn deep_view(&self) -> RequestView {
        self@
    }
}

/// What the host reports after it has dealt with a request.
#[derive(Clone, Debug, PartialEq, Eq)]
pub enum Response {
    /// The request was carried out.
    Done,
    /// The container probe ran and exited, successfully or not.
    Exited { success: bool },
    /// The running executable is at `path`.
    Executable { path: String },
    /// The request could not be carried out, for the reason in `cause`.
    Failed { cause: String },
}

/// A response as the specifications see it.
pub enum ResponseView {
    Done,
    Exited { success: bool },
    Executable { path: Seq<char> },
    Failed { cause: Seq<char> },
}

impl ResponseView {
    /// The reason that the response gives for a failure; empty when it
    /// gives none.
    pub open spec fn cause(self) -> Seq<char> {
        match self {
            ResponseView::Failed { cause } => cause,
            _ => Seq::empty(),
        }
    }
}

impl View for Response {
    type V = ResponseView;

    open spec fn view(&self) -> ResponseView {
        match self {
            Response::Done => ResponseView::Done,
            Response::Exited { success } => ResponseView::Exited { success: *success },
            Response::Executable { path } => ResponseView::Executable { path: path@ },
            Response::Failed { cause } => ResponseView::Failed { cause: cause@ },
        }
    }
}

impl Response {
    /// The reason that the response gives for a failure; empty when it
    /// gives none.
    pub fn cause(&self) -> (cause: String)
        ensures
            cause@ == self@.cause(),
    {
        match self {
            Response::Failed { cause } => cause.clone(),
            _ => String::new(),
        }
    }
}

} // verus!
