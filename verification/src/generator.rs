//! The generator proper: which requests a run makes, in which order, and
//! how it ends.
//!
//! A run is a conversation. [`run_generator`] looks at the configuration
//! and hands out the first request; the host carries it out and passes its
//! response to [`Generator::resume`], which hands out the next one, until
//! the run has finished or failed. The first response that does not answer
//! its request ends the run with an error, and nothing more is requested.

use vstd::prelude::*;
use vstd::string::*;
use crate::device::{Device, DeviceView};
use crate::error::{spec_outcome, ErrorView, GeneratorError};
use crate::path::{
    join, lemma_join_has_parent, lemma_parent_of_join, parent, spec_join, spec_parent,
};
use crate::request::{Artifact, Request, RequestView, Response, ResponseView};
use crate::units::{
    creation_notice, lemma_fixed_names, lemma_swap_unit_name_ends, lemma_swap_unit_name_is_name,
    link_target, service_template, spec_creation_notice, spec_link_target,
    spec_service_template, spec_swap_unit, spec_swap_unit_name, swap_unit, swap_unit_name,
    CONTAINER_NOTICE, MODULES_LOAD_CONTENTS, MODULES_LOAD_DIRECTORY, MODULES_LOAD_FILE,
    MODULES_LOAD_NAME, NO_DEVICES_NOTICE, SERVICE_TEMPLATE, WANTS_DIRECTORY,
};

verus! {

/// The request that makes sure the directory holding `of` exists, or the
/// error that `of` has no parent.
pub open spec fn spec_make_parent(of: Seq<char>) -> Result<RequestView, ErrorView> {
    match spec_parent(of) {
        Some(directory) => Ok(RequestView::CreateDirAll { path: directory }),
        None => Err(ErrorView::ParentLookup { path: of }),
    }
}

/// The requests that create a symbolic link at `link` with the content
/// `target`: first the directory that holds the link, then the link.
pub open spec fn spec_make_symlink(target: Seq<char>, link: Seq<char>) -> Result<
    Seq<RequestView>,
    ErrorView,
> {
    match spec_make_parent(link) {
        Ok(directory) => Ok(seq![directory, RequestView::Symlink { target, link }]),
        Err(error) => Err(error),
    }
}

/// What the response to the container probe says: whether the process runs
/// in a container, or that the probe could not be run.
///
/// A probe that ran and exited without success found no container; that is
/// an answer, not a failure.
pub open spec fn spec_virtualization_container(response: ResponseView) -> Result<
    bool,
    ErrorView,
> {
    match response {
        ResponseView::Exited { success } => Ok(success),
        _ => Err(ErrorView::EnvironmentProbe { cause: response.cause() }),
    }
}

/// What the response to the question for the running executable says: its
/// path, or that it could not be found out.
pub open spec fn spec_executable_path(response: ResponseView) -> Result<Seq<char>, ErrorView> {
    match response {
        ResponseView::Executable { path } => Ok(path),
        _ => Err(ErrorView::SelfPath { cause: response.cause() }),
    }
}

/// Where the symbolic link that enrols the unit `unit_name` is created.
pub open spec fn spec_unit_link(output_directory: Seq<char>, unit_name: Seq<char>) -> Seq<char> {
    spec_join(spec_join(output_directory, WANTS_DIRECTORY@), unit_name)
}

/// The request that writes the swap unit of `device` into
/// `output_directory`.
pub open spec fn spec_swap_unit_write(output_directory: Seq<char>, device: DeviceView) -> RequestView {
    RequestView::WriteFile {
        artifact: Artifact::SwapUnit,
        path: spec_join(output_directory, spec_swap_unit_name(device.name)),
        contents: spec_swap_unit(device.name),
    }
}

/// The requests that set up swap on `device`, in order: the notice, the
/// swap unit, the directory for the link, and the link that makes the swap
/// target pull the unit in.
pub open spec fn spec_handle_device(output_directory: Seq<char>, device: DeviceView) -> Seq<
    RequestView,
> {
    let unit_name = spec_swap_unit_name(device.name);
    let link = spec_unit_link(output_directory, unit_name);
    seq![
        RequestView::Announce { line: spec_creation_notice(device.name, device.megabytes()) },
        spec_swap_unit_write(output_directory, device),
        RequestView::CreateDirAll { path: spec_parent(link).unwrap() },
        RequestView::Symlink { target: spec_link_target(unit_name), link },
    ]
}

/// The request that writes the service template, which starts the
/// executable at `generator` for each device.
pub open spec fn spec_make_service_template(
    output_directory: Seq<char>,
    generator: Seq<char>,
) -> RequestView {
    RequestView::WriteFile {
        artifact: Artifact::ServiceTemplate,
        path: spec_join(output_directory, SERVICE_TEMPLATE@),
        contents: spec_service_template(generator),
    }
}

/// Where the directive that loads the module at boot is written.
pub open spec fn spec_modules_load_path(root: Seq<char>) -> Seq<char> {
    spec_join(root, MODULES_LOAD_FILE@)
}

/// The requests that have the module loaded at boot: the directory for the
/// directive, then the directive itself.
pub open spec fn spec_load_module(root: Seq<char>) -> Seq<RequestView> {
    let path = spec_modules_load_path(root);
    seq![
        RequestView::CreateDirAll { path: spec_parent(path).unwrap() },
        RequestView::WriteFile {
            artifact: Artifact::ModulesLoad,
            path,
            contents: MODULES_LOAD_CONTENTS@,
        },
    ]
}

/// The error with which a run ends when `response` does not answer
/// `request`, or `None` when it does.
///
/// A notice cannot fail. The container probe is answered by its exit, the
/// question for the executable by a path, and every change to the file
/// system by its completion.
pub open spec fn spec_refusal(request: RequestView, response: ResponseView) -> Option<ErrorView> {
    match request {
        RequestView::Announce { .. } => None,
        RequestView::DetectContainer => match spec_virtualization_container(response) {
            Ok(_) => None,
            Err(error) => Some(error),
        },
        RequestView::ResolveExecutable => match spec_executable_path(response) {
            Ok(_) => None,
            Err(error) => Some(error),
        },
        RequestView::WriteFile { artifact, path, .. } => if response is Done {
            None
        } else {
            Some(ErrorView::FileWrite { artifact, path, cause: response.cause() })
        },
        RequestView::CreateDirAll { path } => if response is Done {
            None
        } else {
            Some(ErrorView::DirCreate { path, cause: response.cause() })
        },
        RequestView::Symlink { target, link } => if response is Done {
            None
        } else {
            Some(ErrorView::SymlinkCreate { target, link, cause: response.cause() })
        },
    }
}

/// The part of a run that a generator is in.
#[derive(Clone, Copy, Debug, PartialEq, Eq, Structural)]
pub enum Phase {
    /// Waiting to learn whether the process runs in a container.
    Probing,
    /// Setting up the devices, one after the other.
    Devices,
    /// Waiting to learn the path of the running executable.
    Resolving,
    /// Making the last requests of the run.
    Closing,
}

/// A run that waits for the response to a request.
#[derive(Debug)]
pub struct Generator {
    root: String,
    devices: Vec<Device>,
    output_directory: String,
    phase: Phase,
    awaiting: Request,
    pending: Vec<Request>,
    next_device: usize,
    devices_made: bool,
}

/// A waiting run as the specifications see it.
pub struct GeneratorView {
    /// The system root, below which the module directive is written.
    pub root: Seq<char>,
    /// The configured devices, in the order in which they are set up.
    pub devices: Seq<DeviceView>,
    /// The directory that receives the units and the links.
    pub output_directory: Seq<char>,
    /// The part of the run that is under way.
    pub phase: Phase,
    /// The request that the host is dealing with.
    pub awaiting: RequestView,
    /// The requests that follow it before the run looks at its phase again.
    pub pending: Seq<RequestView>,
    /// How many devices have been taken up.
    pub next_device: nat,
    /// Whether any device has been set up completely.
    pub devices_made: bool,
}

impl View for Generator {
    type V = GeneratorView;

    closed spec fn view(&self) -> GeneratorView {
        GeneratorView {
            root: self.root@,
            devices: self.devices.deep_view(),
            output_directory: self.output_directory@,
            phase: self.phase,
            awaiting: self.awaiting@,
            pending: self.pending.deep_view(),
            next_device: self.next_device as nat,
            devices_made: self.devices_made,
        }
    }
}

/// How far a run has come.
#[derive(Debug)]
pub enum Progress {
    /// The run waits for the response to a request.
    Pending(Generator),
    /// The run is over and everything it asked for was done.
    Finished,
    /// The run is over because something went wrong.
    Failed(GeneratorError),
}

/// The state of a run as the specifications see it.
pub enum ProgressView {
    Pending(GeneratorView),
    Finished,
    Failed(ErrorView),
}

impl View for Progress {
    type V = ProgressView;

    open spec fn view(&self) -> ProgressView {
        match self {
            Progress::Pending(generator) => ProgressView::Pending(generator@),
            Progress::Finished => ProgressView::Finished,
            Progress::Failed(error) => ProgressView::Failed(error@),
        }
    }
}

impl GeneratorView {
    /// The run once it has handed out the first of `requests` and keeps
    /// the others for later.
    pub open spec fn dispatch(self, requests: Seq<RequestView>) -> ProgressView
        recommends
            requests.len() > 0,
    {
        ProgressView::Pending(
            GeneratorView { awaiting: requests.first(), pending: requests.drop_first(), ..self },
        )
    }

    /// The run once it turns to the next device. When no device is left it
    /// asks for the running executable if any device was set up, and is
    /// finished otherwise.
    pub open spec fn next_device(self) -> ProgressView {
        if self.next_device < self.devices.len() {
            GeneratorView {
                phase: Phase::Devices,
                next_device: self.next_device + 1,
                ..self
            }.dispatch(
                spec_handle_device(self.output_directory, self.devices[self.next_device as int]),
            )
        } else if self.devices_made {
            GeneratorView { phase: Phase::Resolving, ..self }.dispatch(
                seq![RequestView::ResolveExecutable],
            )
        } else {
            ProgressView::Finished
        }
    }

    /// The run once the host has reported `response` to the request that
    /// the run waits for.
    pub open spec fn resume(self, response: ResponseView) -> ProgressView {
        match spec_refusal(self.awaiting, response) {
            Some(error) => ProgressView::Failed(error),
            None => if self.pending.len() > 0 {
                self.dispatch(self.pending)
            } else {
                match self.phase {
                    Phase::Probing => match spec_virtualization_container(response) {
                        Ok(true) => GeneratorView { phase: Phase::Closing, ..self }.dispatch(
                            seq![RequestView::Announce { line: CONTAINER_NOTICE@ }],
                        ),
                        Ok(false) => self.next_device(),
                        Err(error) => ProgressView::Failed(error),
                    },
                    Phase::Devices => GeneratorView { devices_made: true, ..self }.next_device(),
                    Phase::Resolving => match spec_executable_path(response) {
                        Ok(generator) => GeneratorView { phase: Phase::Closing, ..self }.dispatch(
                            seq![spec_make_service_template(self.output_directory, generator)]
                                + spec_load_module(self.root),
                        ),
                        Err(error) => ProgressView::Failed(error),
                    },
                    Phase::Closing => ProgressView::Finished,
                }
            },
        }
    }
}

/// How a run begins. Without devices it only says so. Otherwise it first
/// asks whether the process runs in a container.
pub open spec fn spec_run_generator(
    root: Seq<char>,
    devices: Seq<DeviceView>,
    output_directory: Seq<char>,
) -> ProgressView {
    let generator = GeneratorView {
        root,
        devices,
        output_directory,
        phase: Phase::Closing,
        awaiting: RequestView::Announce { line: NO_DEVICES_NOTICE@ },
        pending: Seq::empty(),
        next_device: 0,
        devices_made: false,
    };
    if devices.len() == 0 {
        ProgressView::Pending(generator)
    } else {
        ProgressView::Pending(
            GeneratorView {
                phase: Phase::Probing,
                awaiting: RequestView::DetectContainer,
                ..generator
            },
        )
    }
}

/// The symbolic link of a swap unit always has a directory to be created
/// in, whatever the output directory and the device are called.
pub proof fn lemma_unit_link_has_parent(output_directory: Seq<char>, name: Seq<char>)
    ensures
        spec_parent(spec_unit_link(output_directory, spec_swap_unit_name(name))) is Some,
{
    lemma_swap_unit_name_ends(name);
    lemma_join_has_parent(
        spec_join(output_directory, WANTS_DIRECTORY@),
        spec_swap_unit_name(name),
    );
}

/// For a device whose name holds no separator, the directory of the link
/// is `swap.target.wants` in the output directory.
pub proof fn lemma_unit_link_directory(output_directory: Seq<char>, name: Seq<char>)
    requires
        forall|i: int| 0 <= i < name.len() ==> #[trigger] name[i] != '/',
    ensures
        spec_parent(spec_unit_link(output_directory, spec_swap_unit_name(name))) == Some(
            spec_join(output_directory, WANTS_DIRECTORY@),
        ),
{
    lemma_fixed_names();
    let wants = spec_join(output_directory, WANTS_DIRECTORY@);
    lemma_join_has_parent(output_directory, WANTS_DIRECTORY@);
    lemma_swap_unit_name_is_name(name);
    lemma_parent_of_join(wants, spec_swap_unit_name(name));
}

/// The directory of the module directive is `run/modules-load.d` below the
/// system root.
pub proof fn lemma_modules_load_directory(root: Seq<char>)
    ensures
        spec_parent(spec_modules_load_path(root)) == Some(
            spec_join(root, MODULES_LOAD_DIRECTORY@),
        ),
{
    lemma_fixed_names();
    let directory = spec_join(root, MODULES_LOAD_DIRECTORY@);
    lemma_join_has_parent(root, MODULES_LOAD_DIRECTORY@);
    assert(spec_join(directory, MODULES_LOAD_NAME@) =~= spec_modules_load_path(root));
    lemma_parent_of_join(directory, MODULES_LOAD_NAME@);
}

/// The module directive always has a directory to be written in, whatever
/// the system root is.
pub proof fn lemma_modules_load_path_has_parent(root: Seq<char>)
    ensures
        spec_parent(spec_modules_load_path(root)) is Some,
{
    lemma_fixed_names();
    lemma_join_has_parent(root, MODULES_LOAD_FILE@);
}

/// Makes the request that ensures the directory holding `of` exists.
///
/// Fails when `of` has no parent, as the empty path and the root have none.
pub fn make_parent(of: &str) -> (request: Result<Request, GeneratorError>)
    ensures
        spec_outcome(request) == spec_make_parent(of@),
        request is Ok <==> spec_parent(of@) is Some,
{
    match parent(of) {
        Some(directory) => Ok(Request::CreateDirAll { path: directory }),
        None => Err(GeneratorError::ParentLookup { path: String::from_str(of) }),
    }
}

/// Makes the requests that create a symbolic link at `link` with the
/// content `target`, stored as given: first the directory that holds the
/// link, then the link itself.
///
/// Fails when `link` has no parent.
pub fn make_symlink(target: &str, link: &str) -> (requests: Result<Vec<Request>, GeneratorError>)
    ensures
        spec_outcome(requests) == spec_make_symlink(target@, link@),
        requests is Ok <==> spec_parent(link@) is Some,
{
    match make_parent(link) {
        Ok(directory) => {
            let mut requests: Vec<Request> = Vec::new();
            requests.push(directory);
            requests.push(
                Request::Symlink { target: String::from_str(target), link: String::from_str(link) },
            );
            assert(requests.deep_view() =~= spec_make_symlink(target@, link@)->Ok_0);
            Ok(requests)
        },
        Err(error) => Err(error),
    }
}

/// Reads the response to the container probe: whether the process runs in
/// a container, or that the probe could not be run.
pub fn virtualization_container(response: &Response) -> (containerized: Result<
    bool,
    GeneratorError,
>)
    ensures
        spec_outcome(containerized) == spec_virtualization_container(response@),
        containerized is Ok <==> response@ is Exited,
{
    match response {
        Response::Exited { success } => Ok(*success),
        _ => Err(GeneratorError::EnvironmentProbe { cause: response.cause() }),
    }
}

/// Reads the response to the question for the running executable: its
/// path, or that it could not be found out.
pub fn executable_path(response: &Response) -> (generator: Result<String, GeneratorError>)
    ensures
        spec_outcome(generator) == spec_executable_path(response@),
        generator is Ok <==> response@ is Executable,
{
    match response {
        Response::Executable { path } => Ok(path.clone()),
        _ => Err(GeneratorError::SelfPath { cause: response.cause() }),
    }
}

/// Makes the requests that set up swap on `device`: the notice, the swap
/// unit in `output_directory`, and the link below `swap.target.wants` that
/// points back at the unit.
pub fn handle_device(output_directory: &str, device: &Device) -> (requests: Vec<Request>)
    ensures
        requests.deep_view() == spec_handle_device(output_directory@, device@),
{
    let unit_name = swap_unit_name(device.name.as_str());
    let wants = join(output_directory, WANTS_DIRECTORY);
    let link = join(wants.as_str(), unit_name.as_str());
    let target = link_target(unit_name.as_str());
    let mut requests: Vec<Request> = Vec::new();
    requests.push(Request::Announce { line: creation_notice(device) });
    requests.push(
        Request::WriteFile {
            artifact: Artifact::SwapUnit,
            path: join(output_directory, unit_name.as_str()),
            contents: swap_unit(device.name.as_str()),
        },
    );
    proof {
        lemma_unit_link_has_parent(output_directory@, device.name@);
    }
    // The link lies below the output directory and so has a parent: this
    // never fails.
    match make_symlink(target.as_str(), link.as_str()) {
        Ok(mut link_requests) => {
            assert(link_requests.deep_view().len() == 2);
            assert(link_requests.deep_view()[0] == link_requests[0]@);
            assert(link_requests.deep_view()[1] == link_requests[1]@);
            requests.append(&mut link_requests);
        },
        Err(_) => {},
    }
    assert(requests.deep_view() =~= spec_handle_device(output_directory@, device@));
    requests
}

/// Makes the request that writes the service template into
/// `output_directory`. The template starts the executable at `generator`
/// with the name of the device to set up.
pub fn make_service_template(output_directory: &str, generator: &str) -> (request: Request)
    ensures
        request@ == spec_make_service_template(output_directory@, generator@),
{
    Request::WriteFile {
        artifact: Artifact::ServiceTemplate,
        path: join(output_directory, SERVICE_TEMPLATE),
        contents: service_template(generator),
    }
}

/// Makes the requests that have the module loaded at boot: the directory
/// below `root` for the directive, then the directive itself.
pub fn load_module(root: &str) -> (requests: Vec<Request>)
    ensures
        requests.deep_view() == spec_load_module(root@),
{
    let path = join(root, MODULES_LOAD_FILE);
    let mut requests: Vec<Request> = Vec::new();
    proof {
        lemma_modules_load_path_has_parent(root@);
    }
    // The directive lies below the root and so has a parent: this never
    // fails.
    match make_parent(path.as_str()) {
        Ok(directory) => {
            requests.push(directory);
        },
        Err(_) => {},
    }
    requests.push(
        Request::WriteFile {
            artifact: Artifact::ModulesLoad,
            path,
            contents: String::from_str(MODULES_LOAD_CONTENTS),
        },
    );
    assert(requests.deep_view() =~= spec_load_module(root@));
    requests
}

/// The error with which a run ends when `response` does not answer
/// `request`, or `None` when it does.
pub fn refusal(request: &Request, response: &Response) -> (error: Option<GeneratorError>)
    ensures
        error.deep_view() == spec_refusal(request@, response@),
{
    match request {
        Request::Announce { .. } => None,
        Request::DetectContainer => match virtualization_container(response) {
            Ok(_) => None,
            Err(error) => Some(error),
        },
        Request::ResolveExecutable => match executable_path(response) {
            Ok(_) => None,
            Err(error) => Some(error),
        },
        Request::WriteFile { artifact, path, .. } => match response {
            Response::Done => None,
            _ => Some(
                GeneratorError::FileWrite {
                    artifact: *artifact,
                    path: path.clone(),
                    cause: response.cause(),
                },
            ),
        },
        Request::CreateDirAll { path } => match response {
            Response::Done => None,
            _ => Some(GeneratorError::DirCreate { path: path.clone(), cause: response.cause() }),
        },
        Request::Symlink { target, link } => match response {
            Response::Done => None,
            _ => Some(
                GeneratorError::SymlinkCreate {
                    target: target.clone(),
                    link: link.clone(),
                    cause: response.cause(),
                },
            ),
        },
    }
}

impl Generator {
    /// The request that the run waits for.
    pub fn request(&self) -> (request: &Request)
        ensures
            request@ == self@.awaiting,
    {
        &self.awaiting
    }

    /// Hands out the first of `requests` and keeps the others for later.
    fn dispatch(self, requests: Vec<Request>) -> (progress: Progress)
        requires
            requests.len() > 0,
        ensures
            progress@ == self@.dispatch(requests.deep_view()),
    {
        let mut generator = self;
        let mut requests = requests;
        let ghost all = requests.deep_view();
        let first = requests.remove(0);
        generator.awaiting = first;
        generator.pending = requests;
        assert(generator.pending.deep_view() =~= all.drop_first());
        Progress::Pending(generator)
    }

    /// Turns to the next device, or to what follows the last one.
    fn next_device(self) -> (progress: Progress)
        ensures
            progress@ == self@.next_device(),
    {
        let mut generator = self;
        if generator.next_device < generator.devices.len() {
            let requests = handle_device(
                generator.output_directory.as_str(),
                &generator.devices[generator.next_device],
            );
            generator.phase = Phase::Devices;
            generator.next_device = generator.next_device + 1;
            generator.dispatch(requests)
        } else if generator.devices_made {
            generator.phase = Phase::Resolving;
            let mut requests: Vec<Request> = Vec::new();
            requests.push(Request::ResolveExecutable);
            assert(requests.deep_view() =~= seq![RequestView::ResolveExecutable]);
            generator.dispatch(requests)
        } else {
            Progress::Finished
        }
    }

    /// Takes the host's response to the request that the run waits for, and
    /// says how the run goes on.
    ///
    /// A response that does not answer the request ends the run with the
    /// error that belongs to the request. Otherwise the run hands out its
    /// next request, or is finished when none is left.
    pub fn resume(self, response: Response) -> (progress: Progress)
        ensures
            progress@ == self@.resume(response@),
    {
        match refusal(&self.awaiting, &response) {
            Some(error) => {
                return Progress::Failed(error);
            },
            None => {},
        }
        let mut generator = self;
        if generator.pending.len() > 0 {
            let mut requests: Vec<Request> = Vec::new();
            requests.append(&mut generator.pending);
            return generator.dispatch(requests);
        }
        match generator.phase {
            Phase::Probing => match virtualization_container(&response) {
                Ok(true) => {
                    generator.phase = Phase::Closing;
                    let mut requests: Vec<Request> = Vec::new();
                    requests.push(Request::Announce { line: String::from_str(CONTAINER_NOTICE) });
                    assert(requests.deep_view() =~= seq![
                        RequestView::Announce { line: CONTAINER_NOTICE@ },
                    ]);
                    generator.dispatch(requests)
                },
                Ok(false) => generator.next_device(),
                Err(error) => Progress::Failed(error),
            },
            Phase::Devices => {
                generator.devices_made = true;
                generator.next_device()
            },
            Phase::Resolving => match executable_path(&response) {
                Ok(path) => {
                    generator.phase = Phase::Closing;
                    let mut requests: Vec<Request> = Vec::new();
                    requests.push(
                        make_service_template(generator.output_directory.as_str(), path.as_str()),
                    );
                    let mut module_requests = load_module(generator.root.as_str());
                    requests.append(&mut module_requests);
                    assert(requests.deep_view() =~= seq![
                        spec_make_service_template(self@.output_directory, path@),
                    ] + spec_load_module(self@.root));
                    generator.dispatch(requests)
                },
                Err(error) => Progress::Failed(error),
            },
            Phase::Closing => Progress::Finished,
        }
    }
}

/// Begins a run that generates, below `output_directory`, the units for
/// `devices`, and below `root` the directive that loads the module.
///
/// Without devices the run only says so and is over. Otherwise it first
/// asks whether the process runs in a container.
pub fn run_generator(root: String, devices: Vec<Device>, output_directory: String) -> (progress:
    Progress)
    ensures
        progress@ == spec_run_generator(root@, devices.deep_view(), output_directory@),
{
    let (phase, awaiting) = if devices.len() == 0 {
        (Phase::Closing, Request::Announce { line: String::from_str(NO_DEVICES_NOTICE) })
    } else {
        (Phase::Probing, Request::DetectContainer)
    };
    let generator = Generator {
        root,
        devices,
        output_directory,
        phase,
        awaiting,
        pending: Vec::new(),
        next_device: 0,
        devices_made: false,
    };
    assert(generator.pending.deep_view() =~= Seq::empty());
    Progress::Pending(generator)
}

} // verus!
