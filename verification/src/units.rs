//! Names and text of the generated unit files.
//!
//! Everything here is a function of its arguments alone, so generating
//! twice from the same input gives the same bytes.

use vstd::prelude::*;
use vstd::string::*;
use crate::device::Device;
use crate::path::spec_is_name;
use crate::text::{decimal, spec_decimal};

verus! {

/// First line of every generated unit file.
pub const BANNER: &'static str = "# Automatically generated by zram-generator\n";

/// File name of the service template that creates swap on one device.
pub const SERVICE_TEMPLATE: &'static str = "swap-create@.service";

/// Directory, below the output directory, whose entries the swap target
/// pulls in.
pub const WANTS_DIRECTORY: &'static str = "swap.target.wants";

/// Directory, below the system root, of the directives that load modules
/// at boot.
pub const MODULES_LOAD_DIRECTORY: &'static str = "run/modules-load.d";

/// Location, below the system root, of the directive that loads the module
/// at boot.
pub const MODULES_LOAD_FILE: &'static str = "run/modules-load.d/zram.conf";

/// File name of the directive that loads the module at boot.
pub const MODULES_LOAD_NAME: &'static str = "zram.conf";

/// Text of the directive that loads the module at boot.
pub const MODULES_LOAD_CONTENTS: &'static str = "zram\n";

/// Line printed when no device is configured.
pub const NO_DEVICES_NOTICE: &'static str = "No devices configured, exiting.";

/// Line printed when running inside a container.
pub const CONTAINER_NOTICE: &'static str = "Running in a container, exiting.";

/// Path of the device node of the device `name`.
pub open spec fn spec_device_node(name: Seq<char>) -> Seq<char> {
    "/dev/"@ + name
}

/// Name of the swap unit of the device `name`.
pub open spec fn spec_swap_unit_name(name: Seq<char>) -> Seq<char> {
    "dev-"@ + name + ".swap"@
}

/// Name of the service instance that creates swap on the device `name`.
pub open spec fn spec_creation_service(name: Seq<char>) -> Seq<char> {
    "swap-create@"@ + name + ".service"@
}

/// Text of the swap unit of the device `name`.
pub open spec fn spec_swap_unit(name: Seq<char>) -> Seq<char> {
    BANNER@ + "\n[Unit]\nDescription=Compressed swap on "@ + spec_device_node(name)
        + "\nRequires="@ + spec_creation_service(name) + "\nAfter="@ + spec_creation_service(
        name,
    ) + "\n\n[Swap]\nWhat="@ + spec_device_node(name) + "\nPriority=100\n"@
}

/// What the symlink that enrols the unit `unit_name` points to, relative to
/// the directory that holds the link.
pub open spec fn spec_link_target(unit_name: Seq<char>) -> Seq<char> {
    "../"@ + unit_name
}

/// Text of the service template, which runs the executable at `generator`
/// once for each device.
pub open spec fn spec_service_template(generator: Seq<char>) -> Seq<char> {
    BANNER@
        + "\n[Unit]\nDescription=Create swap on /dev/%i\nWants=systemd-modules-load.service\nAfter=systemd-modules-load.service\nAfter=dev-%i.device\nDefaultDependencies=false\n\n[Service]\nType=oneshot\nRemainAfterExit=yes\nExecStartPre=-modprobe zram\nExecStart="@
        + generator + " --setup-device '%i'\n"@
}

/// Line printed before the units of a device are written.
pub open spec fn spec_creation_notice(name: Seq<char>, megabytes: nat) -> Seq<char> {
    "Creating "@ + spec_swap_unit_name(name) + " for "@ + spec_device_node(name) + " ("@
        + spec_decimal(megabytes) + "MB)"@
}

/// How the fixed names begin and end: none of them is absolute, and none
/// ends in a separator. The module directive lies directly in the
/// directory of such directives.
pub proof fn lemma_fixed_names()
    ensures
        SERVICE_TEMPLATE@.len() > 0,
        SERVICE_TEMPLATE@[0] == 's',
        SERVICE_TEMPLATE@.last() == 'e',
        WANTS_DIRECTORY@.len() > 0,
        WANTS_DIRECTORY@[0] == 's',
        WANTS_DIRECTORY@.last() == 's',
        MODULES_LOAD_DIRECTORY@.len() > 0,
        MODULES_LOAD_DIRECTORY@[0] == 'r',
        MODULES_LOAD_DIRECTORY@.last() == 'd',
        MODULES_LOAD_FILE@.len() > 0,
        MODULES_LOAD_FILE@[0] == 'r',
        MODULES_LOAD_FILE@.last() == 'f',
        MODULES_LOAD_FILE@ == MODULES_LOAD_DIRECTORY@ + seq!['/'] + MODULES_LOAD_NAME@,
        spec_is_name(MODULES_LOAD_NAME@),
{
    reveal_strlit("swap-create@.service");
    reveal_strlit("swap.target.wants");
    reveal_strlit("run/modules-load.d");
    reveal_strlit("run/modules-load.d/zram.conf");
    reveal_strlit("zram.conf");
    assert(MODULES_LOAD_FILE@ =~= MODULES_LOAD_DIRECTORY@ + seq!['/'] + MODULES_LOAD_NAME@);
}

/// The name of a swap unit begins with the letter `d` and ends in the
/// letter `p`, whatever the device is called.
pub proof fn lemma_swap_unit_name_ends(name: Seq<char>)
    ensures
        spec_swap_unit_name(name).len() > 0,
        spec_swap_unit_name(name)[0] == 'd',
        spec_swap_unit_name(name).last() == 'p',
{
    reveal_strlit("dev-");
    reveal_strlit(".swap");
}

/// The name of the swap unit of a device whose name holds no separator
/// holds none either.
pub proof fn lemma_swap_unit_name_is_name(name: Seq<char>)
    requires
        forall|i: int| 0 <= i < name.len() ==> #[trigger] name[i] != '/',
    ensures
        spec_is_name(spec_swap_unit_name(name)),
{
    reveal_strlit("dev-");
    reveal_strlit(".swap");
    let head = "dev-"@;
    let unit_name = spec_swap_unit_name(name);
    assert forall|i: int| 0 <= i < unit_name.len() implies #[trigger] unit_name[i] != '/' by {
        if head.len() <= i < head.len() + name.len() {
            assert(unit_name[i] == name[i - head.len()]);
        }
    }
}

/// Devices with the same swap unit name have the same name.
pub proof fn lemma_swap_unit_name_tells_devices_apart(first: Seq<char>, second: Seq<char>)
    requires
        spec_swap_unit_name(first) == spec_swap_unit_name(second),
    ensures
        first == second,
{
    let head = "dev-"@;
    let tail = ".swap"@;
    assert((head + first + tail).len() == (head + second + tail).len());
    assert forall|i: int| 0 <= i < first.len() implies first[i] == second[i] by {
        assert(first[i] == (head + first + tail)[head.len() + i]);
        assert(second[i] == (head + second + tail)[head.len() + i]);
    }
    assert(first =~= second);
}

/// Path of the device node of the device `name`.
pub fn device_node(name: &str) -> (node: String)
    ensures
        node@ == spec_device_node(name@),
{
    let mut node = String::from_str("/dev/");
    node.append(name);
    node
}

/// Name of the swap unit of the device `name`.
pub fn swap_unit_name(name: &str) -> (unit_name: String)
    ensures
        unit_name@ == spec_swap_unit_name(name@),
{
    let mut unit_name = String::from_str("dev-");
    unit_name.append(name);
    unit_name.append(".swap");
    unit_name
}

/// Name of the service instance that creates swap on the device `name`.
pub fn creation_service(name: &str) -> (service: String)
    ensures
        service@ == spec_creation_service(name@),
{
    let mut service = String::from_str("swap-create@");
    service.append(name);
    service.append(".service");
    service
}

/// Text of the swap unit of the device `name`.
pub fn swap_unit(name: &str) -> (text: String)
    ensures
        text@ == spec_swap_unit(name@),
{
    let node = device_node(name);
    let service = creation_service(name);
    let mut text = String::from_str(BANNER);
    text.append("\n[Unit]\nDescription=Compressed swap on ");
    text.append(node.as_str());
    text.append("\nRequires=");
    text.append(service.as_str());
    text.append("\nAfter=");
    text.append(service.as_str());
    text.append("\n\n[Swap]\nWhat=");
    text.append(node.as_str());
    text.append("\nPriority=100\n");
    text
}

/// What the symlink that enrols the unit `unit_name` points to.
pub fn link_target(unit_name: &str) -> (target: String)
    ensures
        target@ == spec_link_target(unit_name@),
{
    let mut target = String::from_str("../");
    target.append(unit_name);
    target
}

/// Text of the service template, which runs the executable at `generator`
/// once for each device.
pub fn service_template(generator: &str) -> (text: String)
    ensures
        text@ == spec_service_template(generator@),
{
    let mut text = String::from_str(BANNER);
    text.append(
        "\n[Unit]\nDescription=Create swap on /dev/%i\nWants=systemd-modules-load.service\nAfter=systemd-modules-load.service\nAfter=dev-%i.device\nDefaultDependencies=false\n\n[Service]\nType=oneshot\nRemainAfterExit=yes\nExecStartPre=-modprobe zram\nExecStart=",
    );
    text.append(generator);
    text.append(" --setup-device '%i'\n");
    text
}

/// Line printed before the units of `device` are written.
pub fn creation_notice(device: &Device) -> (line: String)
    ensures
        line@ == spec_creation_notice(device.name@, device@.megabytes()),
{
    let unit_name = swap_unit_name(device.name.as_str());
    let node = device_node(device.name.as_str());
    let size = decimal(device.megabytes());
    let mut line = String::from_str("Creating ");
    line.append(unit_name.as_str());
    line.append(" for ");
    line.append(node.as_str());
    line.append(" (");
    line.append(size.as_str());
    line.append("MB)");
    line
}

} // verus!
