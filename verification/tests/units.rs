use zram_generator::device::Device;
use zram_generator::units::{
    creation_notice, creation_service, device_node, link_target, service_template, swap_unit,
    swap_unit_name, BANNER, CONTAINER_NOTICE, MODULES_LOAD_CONTENTS, MODULES_LOAD_DIRECTORY,
    MODULES_LOAD_FILE, MODULES_LOAD_NAME, NO_DEVICES_NOTICE, SERVICE_TEMPLATE, WANTS_DIRECTORY,
};

#[test]
fn names_are_built_from_the_device_name() {
    assert_eq!(device_node("zram0"), "/dev/zram0");
    assert_eq!(swap_unit_name("zram0"), "dev-zram0.swap");
    assert_eq!(creation_service("zram0"), "swap-create@zram0.service");
    assert_eq!(link_target("dev-zram0.swap"), "../dev-zram0.swap");
}

#[test]
fn names_take_the_device_name_as_it_is() {
    assert_eq!(swap_unit_name(""), "dev-.swap");
    assert_eq!(swap_unit_name("zram 1"), "dev-zram 1.swap");
    assert_eq!(device_node("a/b"), "/dev/a/b");
}

#[test]
fn fixed_names_are_those_of_systemd() {
    assert_eq!(SERVICE_TEMPLATE, "swap-create@.service");
    assert_eq!(WANTS_DIRECTORY, "swap.target.wants");
    assert_eq!(MODULES_LOAD_FILE, "run/modules-load.d/zram.conf");
    assert_eq!(MODULES_LOAD_DIRECTORY, "run/modules-load.d");
    assert_eq!(MODULES_LOAD_NAME, "zram.conf");
    assert_eq!(format!("{}/{}", MODULES_LOAD_DIRECTORY, MODULES_LOAD_NAME), MODULES_LOAD_FILE);
    assert_eq!(MODULES_LOAD_CONTENTS, "zram\n");
    assert_eq!(BANNER, "# Automatically generated by zram-generator\n");
    assert_eq!(NO_DEVICES_NOTICE, "No devices configured, exiting.");
    assert_eq!(CONTAINER_NOTICE, "Running in a container, exiting.");
}

#[test]
fn swap_unit_has_the_expected_text() {
    let expected = "\
# Automatically generated by zram-generator

[Unit]
Description=Compressed swap on /dev/zram0
Requires=swap-create@zram0.service
After=swap-create@zram0.service

[Swap]
What=/dev/zram0
Priority=100
";
    assert_eq!(swap_unit("zram0"), expected);
}

#[test]
fn swap_unit_names_the_device_in_each_directive() {
    let text = swap_unit("zram7");
    assert!(text.contains("What=/dev/zram7\n"));
    assert!(text.contains("Requires=swap-create@zram7.service\n"));
    assert!(text.contains("After=swap-create@zram7.service\n"));
    assert!(text.contains("Priority=100\n"));
    assert!(text.starts_with(BANNER));
    assert!(!text.contains("zram0"));
}

#[test]
fn service_template_has_the_expected_text() {
    let expected = "\
# Automatically generated by zram-generator

[Unit]
Description=Create swap on /dev/%i
Wants=systemd-modules-load.service
After=systemd-modules-load.service
After=dev-%i.device
DefaultDependencies=false

[Service]
Type=oneshot
RemainAfterExit=yes
ExecStartPre=-modprobe zram
ExecStart=/usr/lib/systemd/system-generators/zram-generator --setup-device '%i'
";
    assert_eq!(service_template("/usr/lib/systemd/system-generators/zram-generator"), expected);
}

#[test]
fn service_template_starts_the_given_executable() {
    let text = service_template("/opt/bin/gen");
    assert!(text.contains("ExecStart=/opt/bin/gen --setup-device '%i'\n"));
    assert!(text.contains("ExecStartPre=-modprobe zram\n"));
}

#[test]
fn rendering_twice_gives_the_same_bytes() {
    assert_eq!(swap_unit("zram0"), swap_unit("zram0"));
    assert_eq!(service_template("/bin/gen"), service_template("/bin/gen"));
}

#[test]
fn megabytes_round_down() {
    assert_eq!(Device::new(String::from("zram0"), 2147483648).megabytes(), 2048);
    assert_eq!(Device::new(String::from("zram0"), 1048576).megabytes(), 1);
    assert_eq!(Device::new(String::from("zram0"), 1048575).megabytes(), 0);
    assert_eq!(Device::new(String::from("zram0"), 0).megabytes(), 0);
    assert_eq!(Device::new(String::from("zram0"), u64::MAX).megabytes(), 17592186044415);
}

#[test]
fn device_keeps_what_it_is_made_of() {
    let device = Device::new(String::from("zram3"), 4096);
    assert_eq!(device.name, "zram3");
    assert_eq!(device.disksize, 4096);
    assert_eq!(device, Device { name: String::from("zram3"), disksize: 4096 });
}

#[test]
fn creation_notice_names_unit_device_and_size() {
    let device = Device::new(String::from("zram0"), 2147483648);
    assert_eq!(creation_notice(&device), "Creating dev-zram0.swap for /dev/zram0 (2048MB)");
    let small = Device::new(String::from("zram1"), 1000);
    assert_eq!(creation_notice(&small), "Creating dev-zram1.swap for /dev/zram1 (0MB)");
}
