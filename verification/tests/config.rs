use utmvm::config::{
    Architecture, DisplayHardware, DriveConfig, DriveInterface, NetworkMode, PortForward, VmConfig,
};
use utmvm::MacAddress;

#[test]
fn builder_defaults() {
    let c = VmConfig::builder("vm").build();
    assert_eq!(c.name, "vm");
    assert!(c.notes.is_none());
    assert_eq!(c.architecture, Architecture::Aarch64);
    assert_eq!(c.memory_mb, 2048);
    assert_eq!(c.cpu_count, 2);
    assert!(!c.hypervisor);
    assert!(c.drives.is_empty());
    assert_eq!(c.network_mode, NetworkMode::Bridged);
    assert!(c.port_forwards.is_empty());
    assert!(c.mac_address.is_none());
    assert_eq!(c.display, DisplayHardware::VirtioGpuGlPci);
}

#[test]
fn builder_setters() {
    let mac = MacAddress::from_octets([0x52, 0x54, 0, 1, 2, 3]);
    let c = VmConfig::builder("vm")
        .notes("n")
        .architecture(Architecture::X86_64)
        .memory_mb(1)
        .cpu_count(3)
        .hypervisor(true)
        .drive(DriveConfig::disk(5))
        .drive(DriveConfig::cdrom("/x.iso"))
        .network_mode(NetworkMode::HostOnly)
        .port_forward(PortForward { protocol: "TCP".into(), host_port: 1, guest_port: 2 })
        .mac_address(mac.clone())
        .display(DisplayHardware::Vga)
        .build();
    assert_eq!(c.notes.as_deref(), Some("n"));
    assert_eq!(c.architecture, Architecture::X86_64);
    assert_eq!(c.memory_mb, 1);
    assert_eq!(c.cpu_count, 3);
    assert!(c.hypervisor);
    assert_eq!(c.drives.len(), 2);
    assert_eq!(c.drives[1].iso_path.as_deref(), Some("/x.iso"));
    assert_eq!(c.network_mode, NetworkMode::HostOnly);
    assert_eq!(c.port_forwards.len(), 1);
    assert_eq!(c.mac_address, Some(mac));
    assert_eq!(c.display, DisplayHardware::Vga);
}

#[test]
fn drive_constructors() {
    let d = DriveConfig::disk(20);
    assert_eq!(d.size_gb, Some(20));
    assert_eq!(d.interface, DriveInterface::VirtIO);
    assert!(!d.read_only);
    let c = DriveConfig::cdrom("/a.iso");
    assert_eq!(c.size_gb, None);
    assert_eq!(c.interface, DriveInterface::Usb);
    assert!(c.read_only);
    let i = DriveConfig::disk_image("/a.img");
    assert_eq!(i.image_path.as_deref(), Some("/a.img"));
    assert!(i.iso_path.is_none());
}

#[test]
fn names() {
    assert_eq!(Architecture::Aarch64.as_str(), "aarch64");
    assert_eq!(Architecture::X86_64.as_str(), "x86_64");
    assert_eq!(Architecture::Aarch64.efi_boot_binary(), "BOOTAA64.EFI");
    assert_eq!(Architecture::X86_64.efi_boot_binary(), "BOOTX64.EFI");
    assert_eq!(NetworkMode::Bridged.as_applescript_str(), "bridged");
    assert_eq!(NetworkMode::Shared.as_applescript_str(), "shared");
    assert_eq!(NetworkMode::HostOnly.as_applescript_str(), "host only");
    assert_eq!(NetworkMode::Emulated.as_applescript_str(), "emulated");
    assert_eq!(NetworkMode::HostOnly.as_plist_str(), "HostOnly");
    assert_eq!(NetworkMode::Emulated.as_plist_str(), "Emulated");
    assert_eq!(DisplayHardware::VirtioGpuGlPci.as_str(), "virtio-gpu-gl-pci");
    assert_eq!(DisplayHardware::Vga.as_str(), "VGA");
    assert_eq!(DriveInterface::VirtIO.as_str(), "VirtIO");
    assert_eq!(DriveInterface::Usb.as_str(), "USB");
    assert_eq!(DriveInterface::NvMe.as_str(), "NVMe");
}

fn same_config(a: &VmConfig, b: &VmConfig) -> bool {
    a.name == b.name
        && a.notes == b.notes
        && a.architecture == b.architecture
        && a.memory_mb == b.memory_mb
        && a.cpu_count == b.cpu_count
        && a.hypervisor == b.hypervisor
        && a.drives.len() == b.drives.len()
        && a.network_mode == b.network_mode
        && a.port_forwards.len() == b.port_forwards.len()
        && a.mac_address == b.mac_address
        && a.display == b.display
}

#[test]
fn setters_of_different_fields_commute() {
    let a = VmConfig::builder("vm").architecture(Architecture::X86_64).memory_mb(4096).build();
    let b = VmConfig::builder("vm").memory_mb(4096).architecture(Architecture::X86_64).build();
    assert!(same_config(&a, &b));
    let mac = MacAddress::from_octets([0x52, 0x54, 0, 9, 8, 7]);
    let c = VmConfig::builder("vm").notes("n").mac_address(mac.clone()).build();
    let d = VmConfig::builder("vm").mac_address(mac).notes("n").build();
    assert!(same_config(&c, &d));
    let e = VmConfig::builder("vm").display(DisplayHardware::Vga).network_mode(NetworkMode::Shared).build();
    let f = VmConfig::builder("vm").network_mode(NetworkMode::Shared).display(DisplayHardware::Vga).build();
    assert!(same_config(&e, &f));
}
