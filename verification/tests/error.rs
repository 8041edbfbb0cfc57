use zram_generator::error::GeneratorError;
use zram_generator::request::{Artifact, Response};

#[test]
fn message_of_a_probe_that_did_not_run() {
    let error = GeneratorError::EnvironmentProbe { cause: String::from("not found") };
    assert_eq!(error.message(), "systemd-detect-virt call failed: not found");
    assert_eq!(error.cause(), "not found");
}

#[test]
fn message_of_a_missing_parent() {
    let error = GeneratorError::ParentLookup { path: String::from("/") };
    assert_eq!(error.message(), "Couldn't get parent of /");
    assert_eq!(error.cause(), "");
}

#[test]
fn message_of_a_directory_that_could_not_be_created() {
    let error = GeneratorError::DirCreate {
        path: String::from("/out/swap.target.wants"),
        cause: String::from("Not a directory (os error 20)"),
    };
    assert_eq!(error.message(), "Failed to create directory /out/swap.target.wants");
    assert_eq!(error.cause(), "Not a directory (os error 20)");
}

#[test]
fn message_of_a_link_that_could_not_be_created() {
    let error = GeneratorError::SymlinkCreate {
        target: String::from("../dev-zram0.swap"),
        link: String::from("/out/swap.target.wants/dev-zram0.swap"),
        cause: String::from("File exists (os error 17)"),
    };
    assert_eq!(
        error.message(),
        "Failed to create symlink at /out/swap.target.wants/dev-zram0.swap (pointing to ../dev-zram0.swap)"
    );
    assert_eq!(error.cause(), "File exists (os error 17)");
}

#[test]
fn message_of_a_file_that_could_not_be_written() {
    let unit = GeneratorError::FileWrite {
        artifact: Artifact::SwapUnit,
        path: String::from("/out/dev-zram0.swap"),
        cause: String::from("disk full"),
    };
    assert_eq!(unit.message(), "Failed to write a swap service into /out/dev-zram0.swap");
    assert_eq!(unit.cause(), "disk full");
    let template = GeneratorError::FileWrite {
        artifact: Artifact::ServiceTemplate,
        path: String::from("/out/swap-create@.service"),
        cause: String::from("disk full"),
    };
    assert_eq!(
        template.message(),
        "Failed to write a device service into /out/swap-create@.service"
    );
    let directive = GeneratorError::FileWrite {
        artifact: Artifact::ModulesLoad,
        path: String::from("/run/modules-load.d/zram.conf"),
        cause: String::from("read-only"),
    };
    assert_eq!(
        directive.message(),
        "Failed to write configuration for loading a module at /run/modules-load.d/zram.conf"
    );
    assert_eq!(directive.cause(), "read-only");
}

#[test]
fn message_of_an_unknown_executable() {
    let error = GeneratorError::SelfPath { cause: String::from("no /proc") };
    assert_eq!(error.message(), "Couldn't get path to generator executable");
    assert_eq!(error.cause(), "no /proc");
}

#[test]
fn cause_of_a_response_is_empty_unless_it_failed() {
    assert_eq!(Response::Failed { cause: String::from("why") }.cause(), "why");
    assert_eq!(Response::Done.cause(), "");
    assert_eq!(Response::Exited { success: true }.cause(), "");
    assert_eq!(Response::Executable { path: String::from("/bin/gen") }.cause(), "");
}
