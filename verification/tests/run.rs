use std::collections::BTreeMap;
use std::collections::BTreeSet;

use zram_generator::device::Device;
use zram_generator::error::GeneratorError;
use zram_generator::generator::{run_generator, Progress};
use zram_generator::request::{Artifact, Request, Response};
use zram_generator::units::{service_template, swap_unit};

/// A host that keeps everything in memory.
struct Host {
    containerized: bool,
    executable: Option<String>,
    blocked_directory: Option<String>,
    files: BTreeMap<String, String>,
    directories: BTreeSet<String>,
    links: BTreeMap<String, String>,
    lines: Vec<String>,
    requests: Vec<Request>,
}

impl Host {
    fn new() -> Host {
        Host {
            containerized: false,
            executable: Some(String::from("/usr/lib/systemd/system-generators/zram-generator")),
            blocked_directory: None,
            files: BTreeMap::new(),
            directories: BTreeSet::new(),
            links: BTreeMap::new(),
            lines: Vec::new(),
            requests: Vec::new(),
        }
    }

    fn perform(&mut self, request: &Request) -> Response {
        self.requests.push(request.clone());
        match request {
            Request::Announce { line } => {
                self.lines.push(line.clone());
                Response::Done
            },
            Request::DetectContainer => Response::Exited { success: self.containerized },
            Request::ResolveExecutable => match &self.executable {
                Some(path) => Response::Executable { path: path.clone() },
                None => Response::Failed { cause: String::from("unknown executable") },
            },
            Request::WriteFile { path, contents, .. } => {
                self.files.insert(path.clone(), contents.clone());
                Response::Done
            },
            Request::CreateDirAll { path } => {
                if self.blocked_directory.as_ref() == Some(path) {
                    Response::Failed { cause: String::from("Not a directory (os error 20)") }
                } else {
                    self.directories.insert(path.clone());
                    Response::Done
                }
            },
            Request::Symlink { target, link } => {
                if self.links.contains_key(link) {
                    Response::Failed { cause: String::from("File exists (os error 17)") }
                } else {
                    self.links.insert(link.clone(), target.clone());
                    Response::Done
                }
            },
        }
    }

    fn run(&mut self, root: &str, devices: &[Device], output: &str) -> Result<(), GeneratorError> {
        let mut progress =
            run_generator(String::from(root), devices.to_vec(), String::from(output));
        loop {
            match progress {
                Progress::Pending(generator) => {
                    let response = self.perform(generator.request());
                    progress = generator.resume(response);
                },
                Progress::Finished => return Ok(()),
                Progress::Failed(error) => return Err(error),
            }
        }
    }

    fn touched_file_system(&self) -> bool {
        !self.files.is_empty() || !self.directories.is_empty() || !self.links.is_empty()
    }

    fn count(&self, wanted: fn(&Request) -> bool) -> usize {
        self.requests.iter().filter(|request| wanted(request)).count()
    }
}

fn writes_swap_unit(request: &Request) -> bool {
    matches!(request, Request::WriteFile { artifact: Artifact::SwapUnit, .. })
}

fn writes_template(request: &Request) -> bool {
    matches!(request, Request::WriteFile { artifact: Artifact::ServiceTemplate, .. })
}

fn writes_directive(request: &Request) -> bool {
    matches!(request, Request::WriteFile { artifact: Artifact::ModulesLoad, .. })
}

fn links(request: &Request) -> bool {
    matches!(request, Request::Symlink { .. })
}

fn devices(names: &[&str]) -> Vec<Device> {
    names.iter().map(|name| Device::new(String::from(*name), 2147483648)).collect()
}

#[test]
fn run_makes_one_unit_and_one_link_for_each_device() {
    let mut host = Host::new();
    let result = host.run("/", &devices(&["zram0", "zram1", "zram2"]), "/out");
    assert_eq!(result, Ok(()));
    assert_eq!(host.count(writes_swap_unit), 3);
    assert_eq!(host.count(links), 3);
    assert_eq!(host.count(writes_template), 1);
    assert_eq!(host.count(writes_directive), 1);
    for name in ["zram0", "zram1", "zram2"] {
        assert_eq!(host.files[&format!("/out/dev-{}.swap", name)], swap_unit(name));
        assert_eq!(
            host.links[&format!("/out/swap.target.wants/dev-{}.swap", name)],
            format!("../dev-{}.swap", name)
        );
    }
    assert_eq!(
        host.files["/out/swap-create@.service"],
        service_template("/usr/lib/systemd/system-generators/zram-generator")
    );
    assert_eq!(host.files["/run/modules-load.d/zram.conf"], "zram\n");
    assert_eq!(host.files.len(), 5);
    assert_eq!(host.links.len(), 3);
}

#[test]
fn run_leaves_the_same_files_whatever_the_order_of_the_devices() {
    let mut forward = Host::new();
    let mut backward = Host::new();
    assert_eq!(forward.run("/", &devices(&["zram0", "zram1", "zram2"]), "/out"), Ok(()));
    assert_eq!(backward.run("/", &devices(&["zram2", "zram0", "zram1"]), "/out"), Ok(()));
    assert_eq!(forward.files, backward.files);
    assert_eq!(forward.links, backward.links);
    assert_eq!(forward.directories, backward.directories);
    assert_eq!(forward.requests.len(), backward.requests.len());
}

#[test]
fn run_asks_for_the_requests_in_order() {
    let mut host = Host::new();
    assert_eq!(host.run("/", &devices(&["zram0"]), "/out"), Ok(()));
    assert_eq!(host.requests.len(), 9);
    assert_eq!(host.requests[0], Request::DetectContainer);
    assert!(matches!(host.requests[1], Request::Announce { .. }));
    assert!(writes_swap_unit(&host.requests[2]));
    assert!(matches!(host.requests[3], Request::CreateDirAll { .. }));
    assert!(links(&host.requests[4]));
    assert_eq!(host.requests[5], Request::ResolveExecutable);
    assert!(writes_template(&host.requests[6]));
    assert_eq!(
        host.requests[7],
        Request::CreateDirAll { path: String::from("/run/modules-load.d") }
    );
    assert!(writes_directive(&host.requests[8]));
    assert_eq!(host.lines, vec![String::from("Creating dev-zram0.swap for /dev/zram0 (2048MB)")]);
}

#[test]
fn run_without_devices_writes_nothing() {
    let mut host = Host::new();
    assert_eq!(host.run("/", &[], "/out"), Ok(()));
    assert!(!host.touched_file_system());
    assert_eq!(
        host.requests,
        vec![Request::Announce { line: String::from("No devices configured, exiting.") }]
    );
    assert_eq!(host.lines, vec![String::from("No devices configured, exiting.")]);
}

#[test]
fn run_in_a_container_writes_nothing() {
    let mut host = Host::new();
    host.containerized = true;
    assert_eq!(host.run("/", &devices(&["zram0", "zram1"]), "/out"), Ok(()));
    assert!(!host.touched_file_system());
    assert_eq!(
        host.requests,
        vec![
            Request::DetectContainer,
            Request::Announce { line: String::from("Running in a container, exiting.") },
        ]
    );
}

#[test]
fn run_again_puts_back_the_same_bytes() {
    let list = devices(&["zram0", "zram1"]);
    let mut host = Host::new();
    assert_eq!(host.run("/", &list, "/out"), Ok(()));
    let files = host.files.clone();
    let links = host.links.clone();
    // The links are there already, so the second run stops at the first of
    // them; what it wrote before is what was there.
    let again = host.run("/", &list, "/out");
    assert_eq!(
        again,
        Err(GeneratorError::SymlinkCreate {
            target: String::from("../dev-zram0.swap"),
            link: String::from("/out/swap.target.wants/dev-zram0.swap"),
            cause: String::from("File exists (os error 17)"),
        })
    );
    assert_eq!(host.files, files);
    assert_eq!(host.links, links);
}

#[test]
fn run_again_without_the_links_leaves_every_file_as_it_was() {
    let list = devices(&["zram0", "zram1"]);
    let mut host = Host::new();
    assert_eq!(host.run("/", &list, "/out"), Ok(()));
    let files = host.files.clone();
    host.links.clear();
    assert_eq!(host.run("/", &list, "/out"), Ok(()));
    assert_eq!(host.files, files);
    assert_eq!(host.links.len(), 2);
}

#[test]
fn run_writes_the_module_directive_once_for_repeated_devices() {
    let mut host = Host::new();
    host.links.clear();
    let list = devices(&["zram0", "zram1", "zram2", "zram3"]);
    assert_eq!(host.run("/", &list, "/out"), Ok(()));
    assert_eq!(host.count(writes_directive), 1);
    assert_eq!(host.files["/run/modules-load.d/zram.conf"].as_bytes(), b"zram\n");
    assert!(writes_directive(host.requests.last().unwrap()));
}

#[test]
fn run_stops_at_a_repeated_device_because_its_link_exists() {
    let mut host = Host::new();
    let result = host.run("/", &devices(&["zram0", "zram0"]), "/out");
    assert_eq!(
        result,
        Err(GeneratorError::SymlinkCreate {
            target: String::from("../dev-zram0.swap"),
            link: String::from("/out/swap.target.wants/dev-zram0.swap"),
            cause: String::from("File exists (os error 17)"),
        })
    );
    assert_eq!(host.count(writes_directive), 0);
    assert_eq!(host.files.len(), 1);
    assert_eq!(host.files["/out/dev-zram0.swap"], swap_unit("zram0"));
}

#[test]
fn run_fails_without_module_directive_when_a_directory_cannot_be_created() {
    let mut host = Host::new();
    host.blocked_directory = Some(String::from("/out/swap.target.wants"));
    let result = host.run("/", &devices(&["zram0", "zram1"]), "/out");
    assert_eq!(
        result,
        Err(GeneratorError::DirCreate {
            path: String::from("/out/swap.target.wants"),
            cause: String::from("Not a directory (os error 20)"),
        })
    );
    assert_eq!(host.count(writes_directive), 0);
    assert_eq!(host.count(writes_template), 0);
    assert!(!host.files.contains_key("/run/modules-load.d/zram.conf"));
    assert_eq!(host.files.len(), 1);
    assert!(host.links.is_empty());
}

#[test]
fn run_fails_at_a_later_device_without_module_directive() {
    let mut host = Host::new();
    host.links.insert(
        String::from("/out/swap.target.wants/dev-zram1.swap"),
        String::from("elsewhere"),
    );
    let result = host.run("/", &devices(&["zram0", "zram1", "zram2"]), "/out");
    assert!(matches!(result, Err(GeneratorError::SymlinkCreate { .. })));
    assert_eq!(host.count(writes_swap_unit), 2);
    assert_eq!(host.count(writes_directive), 0);
    assert_eq!(host.links["/out/swap.target.wants/dev-zram0.swap"], "../dev-zram0.swap");
    assert!(!host.files.contains_key("/out/dev-zram2.swap"));
}

#[test]
fn run_fails_without_module_directive_when_its_directory_cannot_be_created() {
    let mut host = Host::new();
    host.blocked_directory = Some(String::from("/sysroot/run/modules-load.d"));
    let result = host.run("/sysroot", &devices(&["zram0"]), "/out");
    assert_eq!(
        result,
        Err(GeneratorError::DirCreate {
            path: String::from("/sysroot/run/modules-load.d"),
            cause: String::from("Not a directory (os error 20)"),
        })
    );
    assert_eq!(host.count(writes_directive), 0);
    assert_eq!(host.count(writes_template), 1);
}

#[test]
fn run_fails_when_the_executable_cannot_be_found() {
    let mut host = Host::new();
    host.executable = None;
    let result = host.run("/", &devices(&["zram0"]), "/out");
    assert_eq!(
        result,
        Err(GeneratorError::SelfPath { cause: String::from("unknown executable") })
    );
    assert_eq!(host.count(writes_swap_unit), 1);
    assert_eq!(host.count(writes_template), 0);
    assert_eq!(host.count(writes_directive), 0);
}

#[test]
fn run_writes_below_the_given_root_and_output_directory() {
    let mut host = Host::new();
    assert_eq!(host.run("", &devices(&["zram0"]), "units/"), Ok(()));
    assert!(host.files.contains_key("units/dev-zram0.swap"));
    assert!(host.files.contains_key("units/swap-create@.service"));
    assert!(host.files.contains_key("run/modules-load.d/zram.conf"));
    assert!(host.links.contains_key("units/swap.target.wants/dev-zram0.swap"));
    assert!(host.directories.contains("units/swap.target.wants"));
    assert!(host.directories.contains("run/modules-load.d"));
}
