use utmvm::config::{Architecture, DriveConfig, NetworkMode, PortForward, VmConfig};
use utmvm::manager::{
    build_create_script, build_drives_applescript, cdrom_images, creation_script,
    follow_up_port_forward, parse_list_output, restart_result,
};
use utmvm::error::Error;
use utmvm::vm::VmStatus;

#[test]
fn test_parse_list_tab_separated() {
    let raw = "Name\tUUID\tStatus\nmy-vm\tabc-123\tstarted\nother\tdef-456\tstopped\n";
    let vms = parse_list_output(raw);
    assert_eq!(vms.len(), 2);
    assert_eq!(vms[0].name, "my-vm");
    assert_eq!(vms[0].uuid, "abc-123");
    assert_eq!(vms[0].status, VmStatus::Started);
    assert_eq!(vms[1].status, VmStatus::Stopped);
}

#[test]
fn test_parse_list_whitespace_separated() {
    let raw = "Name                UUID                                   Status\nmy-vm               abc-123                                started\n";
    let vms = parse_list_output(raw);
    assert_eq!(vms.len(), 1);
    assert_eq!(vms[0].name, "my-vm");
}

#[test]
fn test_build_drives_applescript_cdrom() {
    let drives = vec![DriveConfig::cdrom("/path/to/installer.iso")];
    let (vars, expr) = build_drives_applescript(&drives);
    assert!(expr.contains("removable:true"));
    assert!(expr.contains("source:drive1"));
    assert!(vars.contains("set drive1 to POSIX file \"/path/to/installer.iso\""));
}

#[test]
fn test_build_drives_applescript_disk() {
    let drives = vec![DriveConfig::disk(20)];
    let (vars, expr) = build_drives_applescript(&drives);
    assert!(vars.is_empty());
    assert!(expr.contains("guest size:20480"));
}

#[test]
fn test_build_drives_applescript_disk_image() {
    let drives = vec![DriveConfig::disk_image("/path/to/disk.img")];
    let (vars, expr) = build_drives_applescript(&drives);
    assert!(expr.contains("source:drive1"));
    assert!(vars.contains("set drive1 to POSIX file \"/path/to/disk.img\""));
    assert!(!expr.contains("removable"));
}

#[test]
fn test_create_script_icbm_regression() {
    let config = VmConfig::builder("icbm-ubuntu")
        .architecture(Architecture::Aarch64)
        .memory_mb(4096)
        .cpu_count(2)
        .hypervisor(true)
        .drive(DriveConfig::disk_image("/tmp/noble.img"))
        .drive(DriveConfig::cdrom("/tmp/seed.iso"))
        .network_mode(NetworkMode::Emulated)
        .port_forward(PortForward {
            protocol: "TCP".to_string(),
            host_port: 2222,
            guest_port: 22,
        })
        .build();

    let mut script_config = config.clone();
    script_config.port_forwards.clear();
    let script = build_create_script(&script_config);

    let expected = [
        "tell application \"UTM\"\n",
        "    set drive1 to POSIX file \"/tmp/noble.img\"\n",
        "    set drive2 to POSIX file \"/tmp/seed.iso\"\n",
        "    make new virtual machine with properties {backend:qemu, configuration:{",
        "name:\"icbm-ubuntu\", ",
        "architecture:\"aarch64\", ",
        "memory:4096, ",
        "cpu cores:2, ",
        "hypervisor:true, ",
        "drives:{{source:drive1}, {removable:true, source:drive2}}, ",
        "network interfaces:{{mode:emulated}}}}\n",
        "end tell\n",
    ]
    .concat();

    assert_eq!(
        script, expected,
        "Generated AppleScript does not match the known-working template.\n\n",
    );
}

#[test]
fn test_create_script_balanced_braces() {
    let cfg1 = VmConfig::builder("test-vm")
        .architecture(Architecture::Aarch64)
        .memory_mb(2048)
        .cpu_count(2)
        .drive(DriveConfig::disk_image("/tmp/disk.img"))
        .drive(DriveConfig::cdrom("/tmp/seed.iso"))
        .network_mode(NetworkMode::Emulated)
        .port_forward(PortForward {
            protocol: "TCP".to_string(),
            host_port: 2222,
            guest_port: 22,
        })
        .build();

    let s1 = build_create_script(&cfg1);
    let opens1 = s1.chars().filter(|&c| c == '{').count();
    let closes1 = s1.chars().filter(|&c| c == '}').count();
    assert_eq!(
        opens1, closes1,
        "Emulated-branch AppleScript has unbalanced braces:\n{s1}"
    );

    let cfg2 = VmConfig::builder("test-vm2")
        .architecture(Architecture::X86_64)
        .memory_mb(4096)
        .cpu_count(4)
        .drive(DriveConfig::disk(40))
        .network_mode(NetworkMode::Bridged)
        .build();

    let s2 = build_create_script(&cfg2);
    let opens2 = s2.chars().filter(|&c| c == '{').count();
    let closes2 = s2.chars().filter(|&c| c == '}').count();
    assert_eq!(
        opens2, closes2,
        "Bridged-branch AppleScript has unbalanced braces:\n{s2}"
    );
}

#[test]
fn create_script_with_port_forward_in_emulated_mode() {
    let cfg = VmConfig::builder("pf")
        .network_mode(NetworkMode::Emulated)
        .port_forward(PortForward { protocol: "TCP".to_string(), host_port: 2222, guest_port: 22 })
        .build();
    let s = build_create_script(&cfg);
    assert!(s.contains(
        "network interfaces:{{mode:emulated, port forwards:{{protocol:TCP, host port:2222, guest port:22}}}}}}\n"
    ));
    let c = creation_script(&cfg);
    assert!(!c.contains("port forwards"));
    assert!(c.contains("network interfaces:{{mode:emulated}}}}\n"));
}

#[test]
fn creation_script_equals_script_without_forwards() {
    let cfg = VmConfig::builder("x")
        .network_mode(NetworkMode::Emulated)
        .port_forward(PortForward { protocol: "UDP".to_string(), host_port: 1, guest_port: 2 })
        .build();
    let mut cleared = cfg.clone();
    cleared.port_forwards.clear();
    assert_eq!(creation_script(&cfg), build_create_script(&cleared));
}

#[test]
fn port_forward_ignored_outside_emulated_mode() {
    let cfg = VmConfig::builder("b")
        .network_mode(NetworkMode::Shared)
        .port_forward(PortForward { protocol: "TCP".to_string(), host_port: 80, guest_port: 8080 })
        .build();
    let s = build_create_script(&cfg);
    assert!(s.contains("network interfaces:{{mode:shared}}}}\n"));
}

#[test]
fn create_script_defaults_and_notes() {
    let cfg = VmConfig::builder("vm").notes("hello").build();
    let s = build_create_script(&cfg);
    assert_eq!(
        s,
        "tell application \"UTM\"\n    make new virtual machine with properties {backend:qemu, configuration:{name:\"vm\", notes:\"hello\", architecture:\"aarch64\", memory:2048, cpu cores:2, drives:{}, network interfaces:{{mode:bridged}}}}\nend tell\n"
    );
}

#[test]
fn drives_are_numbered_and_joined() {
    let drives = vec![
        DriveConfig::cdrom("/a \"b\".iso"),
        DriveConfig::disk(1),
        DriveConfig::disk_image("/c.img"),
    ];
    let (vars, expr) = build_drives_applescript(&drives);
    assert_eq!(
        vars,
        "    set drive1 to POSIX file \"/a \\\"b\\\".iso\"\n    set drive3 to POSIX file \"/c.img\"\n"
    );
    assert_eq!(expr, "{removable:true, source:drive1}, {guest size:1024}, {source:drive3}");
}

#[test]
fn blank_disk_without_size_gets_twenty_gigabytes() {
    let mut d = DriveConfig::disk(5);
    d.size_gb = None;
    let (_, expr) = build_drives_applescript(&[d]);
    assert_eq!(expr, "{guest size:20480}");
}

#[test]
fn parse_list_skips_blank_and_malformed_rows() {
    let raw = "Name\tUUID\tStatus\n\n   \nonly two\nvm\tid\tPaused\r\nx y z w\n";
    let vms = parse_list_output(raw);
    assert_eq!(vms.len(), 2);
    assert_eq!(vms[0].name, "vm");
    assert_eq!(vms[0].status, VmStatus::Paused);
    assert_eq!(vms[1].name, "x");
    assert_eq!(vms[1].uuid, "y");
    assert_eq!(vms[1].status, VmStatus::Unknown("z".to_string()));
}

#[test]
fn parse_list_third_tab_column_keeps_rest() {
    let vms = parse_list_output("h\n a \t b \t Starting\textra\n");
    assert_eq!(vms.len(), 1);
    assert_eq!(vms[0].name, "a");
    assert_eq!(vms[0].uuid, "b");
    assert_eq!(vms[0].status, VmStatus::Unknown("starting\textra".to_string()));
}

#[test]
fn parse_list_empty_and_header_only() {
    assert!(parse_list_output("").is_empty());
    assert!(parse_list_output("Name\tUUID\tStatus").is_empty());
}

#[test]
fn follow_up_forward_is_the_first() {
    let cfg = VmConfig::builder("x")
        .port_forward(PortForward { protocol: "TCP".into(), host_port: 1, guest_port: 2 })
        .port_forward(PortForward { protocol: "UDP".into(), host_port: 3, guest_port: 4 })
        .build();
    assert_eq!(follow_up_port_forward(&cfg).unwrap().protocol, "TCP");
    assert!(follow_up_port_forward(&VmConfig::builder("y").build()).is_none());
}

#[test]
fn relaunch_failure_wins() {
    assert!(restart_result(Ok(()), Ok(())).is_ok());
    assert!(matches!(restart_result(Err(Error::Other("e".into())), Ok(())), Err(Error::Other(m)) if m == "e"));
    assert!(matches!(
        restart_result(Err(Error::Other("e".into())), Err(Error::Other("l".into()))),
        Err(Error::Other(m)) if m == "l"
    ));
}

#[test]
fn cdrom_images_in_order() {
    let drives = vec![
        DriveConfig::cdrom("/a.iso"),
        DriveConfig::disk(1),
        DriveConfig::disk_image("/b.img"),
        DriveConfig::cdrom("/c.iso"),
    ];
    assert_eq!(cdrom_images(&drives), vec!["/a.iso", "/c.iso"]);
}

#[test]
fn create_script_braces_nest() {
    let cfg = VmConfig::builder("n")
        .notes("x")
        .hypervisor(true)
        .drive(DriveConfig::cdrom("/s.iso"))
        .drive(DriveConfig::disk(3))
        .network_mode(NetworkMode::Emulated)
        .port_forward(PortForward { protocol: "TCP".into(), host_port: 1, guest_port: 2 })
        .build();
    for s in [build_create_script(&cfg), creation_script(&cfg)] {
        let mut depth: i64 = 0;
        for c in s.chars() {
            if c == '{' {
                depth += 1;
            } else if c == '}' {
                depth -= 1;
            }
            assert!(depth >= 0, "{s}");
        }
        assert_eq!(depth, 0);
    }
}

#[test]
fn port_forward_text_only_with_a_written_forward() {
    let bridged = VmConfig::builder("vm")
        .port_forward(PortForward { protocol: "TCP".to_string(), host_port: 22, guest_port: 22 })
        .build();
    let s = build_create_script(&bridged);
    assert!(!s.contains("port forwards:"));
    assert!(s.contains("{{mode:bridged}}}}\n"));
    let emulated = VmConfig::builder("vm")
        .network_mode(NetworkMode::Emulated)
        .port_forward(PortForward { protocol: "TCP".to_string(), host_port: 22, guest_port: 22 })
        .build();
    assert!(build_create_script(&emulated).contains("port forwards:"));
}

#[test]
fn notes_and_hypervisor_fields_only_when_set() {
    let plain = build_create_script(&VmConfig::builder("vm").build());
    assert!(!plain.contains("notes:"));
    assert!(!plain.contains("hypervisor:true, "));
    let set = build_create_script(&VmConfig::builder("vm").notes("n").hypervisor(true).build());
    assert!(set.contains("notes:\"n\", "));
    assert!(set.contains("hypervisor:true, "));
}

#[test]
fn listed_vms_keep_row_order() {
    let raw = "UUID\tName\tStatus\n\nb-id\tbeta\tstopped\nbad\n   \na-id\talpha\tstarted\n";
    let vms = parse_list_output(raw);
    assert_eq!(vms.len(), 2);
    assert_eq!(vms[0].name, "b-id");
    assert_eq!(vms[0].uuid, "beta");
    assert_eq!(vms[0].status, VmStatus::Stopped);
    assert_eq!(vms[1].name, "a-id");
    assert_eq!(vms[1].status, VmStatus::Started);
}
