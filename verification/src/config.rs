//! The configuration of a new VM and its builder.

use vstd::prelude::*;
use crate::network::MacAddress;

verus! {

/// Target CPU architecture for the VM.
#[derive(Debug, Clone, Copy, PartialEq, Eq, Structural)]
pub enum Architecture {
    /// 64-bit ARM (Apple Silicon native, also works on Intel via emulation).
    Aarch64,
    /// x86-64.
    X86_64,
}

/// The name UTM and QEMU use for an architecture.
pub open spec fn architecture_name(a: Architecture) -> Seq<char> {
    match a {
        Architecture::Aarch64 => "aarch64"@,
        Architecture::X86_64 => "x86_64"@,
    }
}

/// The UEFI fallback boot binary for an architecture.
pub open spec fn efi_binary_name(a: Architecture) -> Seq<char> {
    match a {
        Architecture::Aarch64 => "BOOTAA64.EFI"@,
        Architecture::X86_64 => "BOOTX64.EFI"@,
    }
}

impl Architecture {
    /// Returns the string UTM / QEMU uses for this architecture.
    pub fn as_str(&self) -> (r: &'static str)
        ensures
            r@ == architecture_name(*self),
    {
        match self {
            Architecture::Aarch64 => "aarch64",
            Architecture::X86_64 => "x86_64",
        }
    }

    /// The UEFI fallback EFI binary name for this architecture.
    pub fn efi_boot_binary(&self) -> (r: &'static str)
        ensures
            r@ == efi_binary_name(*self),
    {
        match self {
            Architecture::Aarch64 => "BOOTAA64.EFI",
            Architecture::X86_64 => "BOOTX64.EFI",
        }
    }
}

/// Number of virtual CPUs.
pub type CpuCount = u32;

/// RAM in megabytes.
pub type MemoryMb = u32;

/// Disk size in gigabytes.
pub type DiskSizeGb = u32;

/// Network interface mode.
#[derive(Debug, Clone, Copy, PartialEq, Eq, Structural)]
pub enum NetworkMode {
    /// Bridged — VM gets a real IP from the host LAN DHCP.
    /// Recommended for automation; requires macOS network permissions.
    Bridged,
    /// Shared (NAT) — VM is behind 10.0.2.x NAT. No admin privileges needed.
    Shared,
    /// Host-only — private network, no internet access.
    HostOnly,
    /// Emulated — QEMU user-mode networking; port forwards reach the guest.
    Emulated,
}

/// The word for a network mode in UTM's AppleScript dictionary.
pub open spec fn mode_applescript_name(m: NetworkMode) -> Seq<char> {
    match m {
        NetworkMode::Bridged => "bridged"@,
        NetworkMode::Shared => "shared"@,
        NetworkMode::HostOnly => "host only"@,
        NetworkMode::Emulated => "emulated"@,
    }
}

/// The value for a network mode in a VM's `config.plist`.
pub open spec fn mode_plist_name(m: NetworkMode) -> Seq<char> {
    match m {
        NetworkMode::Bridged => "Bridged"@,
        NetworkMode::Shared => "Shared"@,
        NetworkMode::HostOnly => "HostOnly"@,
        NetworkMode::Emulated => "Emulated"@,
    }
}

impl NetworkMode {
    /// The word UTM's AppleScript dictionary uses for this mode.
    pub fn as_applescript_str(&self) -> (r: &'static str)
        ensures
            r@ == mode_applescript_name(*self),
    {
        match self {
            NetworkMode::Bridged => "bridged",
            NetworkMode::Shared => "shared",
            NetworkMode::HostOnly => "host only",
            NetworkMode::Emulated => "emulated",
        }
    }

    /// The value `config.plist` uses for this mode.
    pub fn as_plist_str(&self) -> (r: &'static str)
        ensures
            r@ == mode_plist_name(*self),
    {
        match self {
            NetworkMode::Bridged => "Bridged",
            NetworkMode::Shared => "Shared",
            NetworkMode::HostOnly => "HostOnly",
            NetworkMode::Emulated => "Emulated",
        }
    }
}

/// Display (GPU) hardware model.
#[derive(Debug, Clone, Copy, PartialEq, Eq, Structural)]
pub enum DisplayHardware {
    /// VirtIO OpenGL-accelerated display (recommended for Linux guests).
    VirtioGpuGlPci,
    /// Standard VGA.
    Vga,
}

impl DisplayHardware {
    /// The QEMU device name of this display.
    pub fn as_str(&self) -> (r: &'static str)
        ensures
            r@ == (match *self {
                DisplayHardware::VirtioGpuGlPci => "virtio-gpu-gl-pci"@,
                DisplayHardware::Vga => "VGA"@,
            }),
    {
        match self {
            DisplayHardware::VirtioGpuGlPci => "virtio-gpu-gl-pci",
            DisplayHardware::Vga => "VGA",
        }
    }
}

/// Drive interface type.
#[derive(Debug, Clone, Copy, PartialEq, Eq, Structural)]
pub enum DriveInterface {
    /// VirtIO block device — best performance for Linux guests.
    VirtIO,
    /// USB storage — required for CD-ROM / ISO images in UTM.
    Usb,
    /// NVMe.
    NvMe,
}

impl DriveInterface {
    /// The name UTM uses for this interface.
    pub fn as_str(&self) -> (r: &'static str)
        ensures
            r@ == (match *self {
                DriveInterface::VirtIO => "VirtIO"@,
                DriveInterface::Usb => "USB"@,
                DriveInterface::NvMe => "NVMe"@,
            }),
    {
        match self {
            DriveInterface::VirtIO => "VirtIO",
            DriveInterface::Usb => "USB",
            DriveInterface::NvMe => "NVMe",
        }
    }
}

/// A port-forward rule for the emulated network.
#[derive(Debug, Clone)]
pub struct PortForward {
    /// `"TCP"` or `"UDP"`.
    pub protocol: String,
    /// Port on the host.
    pub host_port: u16,
    /// Port in the guest.
    pub guest_port: u16,
}

/// Configuration for a single drive attached to a VM.
#[derive(Debug, Clone)]
pub struct DriveConfig {
    /// Size in GB. `None` for CD-ROM/ISO drives and existing images.
    pub size_gb: Option<DiskSizeGb>,
    /// Path to an ISO image. When set this is treated as a read-only CD-ROM.
    pub iso_path: Option<String>,
    /// Path to an existing disk image, attached as a fixed drive.
    pub image_path: Option<String>,
    /// Interface type. Defaults to VirtIO for disks, USB for CD-ROMs.
    pub interface: DriveInterface,
    /// Read-only flag.
    pub read_only: bool,
}

impl DriveConfig {
    /// Create a new blank disk drive.
    pub fn disk(size_gb: DiskSizeGb) -> (r: Self)
        ensures
            r.size_gb == Some(size_gb),
            r.iso_path.is_none(),
            r.image_path.is_none(),
            r.interface == DriveInterface::VirtIO,
            !r.read_only,
    {
        DriveConfig {
            size_gb: Some(size_gb),
            iso_path: None,
            image_path: None,
            interface: DriveInterface::VirtIO,
            read_only: false,
        }
    }

    /// Create a CD-ROM drive backed by an ISO file.
    pub fn cdrom(iso_path: &str) -> (r: Self)
        ensures
            r.size_gb.is_none(),
            r.iso_path matches Some(p) && p@ == iso_path@,
            r.image_path.is_none(),
            r.interface == DriveInterface::Usb,
            r.read_only,
    {
        DriveConfig {
            size_gb: None,
            iso_path: Some(iso_path.to_owned()),
            image_path: None,
            interface: DriveInterface::Usb,
            read_only: true,
        }
    }

    /// Attach an existing disk image file as a writable VirtIO drive.
    pub fn disk_image(image_path: &str) -> (r: Self)
        ensures
            r.size_gb.is_none(),
            r.iso_path.is_none(),
            r.image_path matches Some(p) && p@ == image_path@,
            r.interface == DriveInterface::VirtIO,
            !r.read_only,
    {
        DriveConfig {
            size_gb: None,
            iso_path: None,
            image_path: Some(image_path.to_owned()),
            interface: DriveInterface::VirtIO,
            read_only: false,
        }
    }
}

/// Complete configuration for creating a new VM.
#[derive(Debug, Clone)]
pub struct VmConfig {
    /// VM display name.
    pub name: String,
    /// Optional human-readable notes shown in UTM.
    pub notes: Option<String>,
    /// Target CPU architecture.
    pub architecture: Architecture,
    /// RAM in megabytes.
    pub memory_mb: MemoryMb,
    /// Number of virtual CPUs.
    pub cpu_count: CpuCount,
    /// Use the hypervisor (virtualisation) instead of emulation.
    pub hypervisor: bool,
    /// Attached drives (in order). CD-ROM should come first for install images.
    pub drives: Vec<DriveConfig>,
    /// Network mode.
    pub network_mode: NetworkMode,
    /// Port forwards (only meaningful with [`NetworkMode::Emulated`]).
    pub port_forwards: Vec<PortForward>,
    /// MAC address. `None` → randomly generated.
    pub mac_address: Option<MacAddress>,
    /// Display hardware.
    pub display: DisplayHardware,
}

/// Fluent builder for [`VmConfig`].
pub struct VmConfigBuilder {
    inner: VmConfig,
}

impl View for VmConfigBuilder {
    type V = VmConfig;

    /// The configuration built so far.
    closed spec fn view(&self) -> VmConfig {
        self.inner
    }
}

impl VmConfig {
    /// Start building a [`VmConfig`] with the given name and sensible defaults:
    /// aarch64, 2048 MB, 2 CPUs, no hypervisor, no drives, bridged network, no port
    /// forwards, a random MAC and a VirtIO GPU display.
    pub fn builder(name: &str) -> (r: VmConfigBuilder)
        ensures
            r@.name@ == name@,
            r@.notes.is_none(),
            r@.architecture == Architecture::Aarch64,
            r@.memory_mb == 2048,
            r@.cpu_count == 2,
            !r@.hypervisor,
            r@.drives@.len() == 0,
            r@.network_mode == NetworkMode::Bridged,
            r@.port_forwards@.len() == 0,
            r@.mac_address.is_none(),
            r@.display == DisplayHardware::VirtioGpuGlPci,
    {
        VmConfigBuilder::new(name)
    }
}

impl VmConfigBuilder {
    fn new(name: &str) -> (r: Self)
        ensures
            r@.name@ == name@,
            r@.notes.is_none(),
            r@.architecture == Architecture::Aarch64,
            r@.memory_mb == 2048,
            r@.cpu_count == 2,
            !r@.hypervisor,
            r@.drives@.len() == 0,
            r@.network_mode == NetworkMode::Bridged,
            r@.port_forwards@.len() == 0,
            r@.mac_address.is_none(),
            r@.display == DisplayHardware::VirtioGpuGlPci,
    {
        Self {
            inner: VmConfig {
                name: name.to_owned(),
                notes: None,
                architecture: Architecture::Aarch64,
                memory_mb: 2048,
                cpu_count: 2,
                hypervisor: false,
                drives: Vec::new(),
                network_mode: NetworkMode::Bridged,
                port_forwards: Vec::new(),
                mac_address: None,
                display: DisplayHardware::VirtioGpuGlPci,
            },
        }
    }

    /// Set notes shown in UTM UI.
    pub fn notes(self, notes: &str) -> (r: Self)
        ensures
            r@.notes matches Some(n) && n@ == notes@,
            r@ == (VmConfig { notes: r@.notes, ..self@ }),
            r@ == apply_setting(self@, Setting::Notes(r@.notes.unwrap())),
    {
        let mut b = self;
        b.inner.notes = Some(notes.to_owned());
        b
    }

    /// Set target architecture.
    pub fn architecture(self, arch: Architecture) -> (r: Self)
        ensures
            r@ == (VmConfig { architecture: arch, ..self@ }),
            r@ == apply_setting(self@, Setting::Architecture(arch)),
    {
        let mut b = self;
        b.inner.architecture = arch;
        b
    }

    /// Set RAM in megabytes.
    pub fn memory_mb(self, mb: MemoryMb) -> (r: Self)
        ensures
            r@ == (VmConfig { memory_mb: mb, ..self@ }),
            r@ == apply_setting(self@, Setting::MemoryMb(mb)),
    {
        let mut b = self;
        b.inner.memory_mb = mb;
        b
    }

    /// Set number of virtual CPUs.
    pub fn cpu_count(self, count: CpuCount) -> (r: Self)
        ensures
            r@ == (VmConfig { cpu_count: count, ..self@ }),
            r@ == apply_setting(self@, Setting::CpuCount(count)),
    {
        let mut b = self;
        b.inner.cpu_count = count;
        b
    }

    /// Use the hypervisor (`true`) or emulation (`false`).
    pub fn hypervisor(self, enabled: bool) -> (r: Self)
        ensures
            r@ == (VmConfig { hypervisor: enabled, ..self@ }),
            r@ == apply_setting(self@, Setting::Hypervisor(enabled)),
    {
        let mut b = self;
        b.inner.hypervisor = enabled;
        b
    }

    /// Append a drive.
    pub fn drive(self, drive: DriveConfig) -> (r: Self)
        ensures
            r@.drives@ == self@.drives@.push(drive),
            r@ == (VmConfig { drives: r@.drives, ..self@ }),
    {
        let mut b = self;
        b.inner.drives.push(drive);
        b
    }

    /// Set network mode.
    pub fn network_mode(self, mode: NetworkMode) -> (r: Self)
        ensures
            r@ == (VmConfig { network_mode: mode, ..self@ }),
            r@ == apply_setting(self@, Setting::NetworkMode(mode)),
    {
        let mut b = self;
        b.inner.network_mode = mode;
        b
    }

    /// Append a port-forward rule.
    pub fn port_forward(self, pf: PortForward) -> (r: Self)
        ensures
            r@.port_forwards@ == self@.port_forwards@.push(pf),
            r@ == (VmConfig { port_forwards: r@.port_forwards, ..self@ }),
    {
        let mut b = self;
        b.inner.port_forwards.push(pf);
        b
    }

    /// Pin a specific MAC address (otherwise randomly generated at creation time).
    pub fn mac_address(self, mac: MacAddress) -> (r: Self)
        ensures
            r@ == (VmConfig { mac_address: Some(mac), ..self@ }),
            r@ == apply_setting(self@, Setting::MacAddress(mac)),
    {
        let mut b = self;
        b.inner.mac_address = Some(mac);
        b
    }

    /// Set display hardware.
    pub fn display(self, display: DisplayHardware) -> (r: Self)
        ensures
            r@ == (VmConfig { display: display, ..self@ }),
            r@ == apply_setting(self@, Setting::Display(display)),
    {
        let mut b = self;
        b.inner.display = display;
        b
    }

    /// Consume the builder and return the [`VmConfig`].
    pub fn build(self) -> (r: VmConfig)
        ensures
            r == self@,
    {
        self.inner
    }
}


/// One setting of a builder that replaces a single field of the configuration.
pub enum Setting {
    Notes(String),
    Architecture(Architecture),
    MemoryMb(MemoryMb),
    CpuCount(CpuCount),
    Hypervisor(bool),
    NetworkMode(NetworkMode),
    MacAddress(MacAddress),
    Display(DisplayHardware),
}

/// The field that a setting replaces, by number.
pub open spec fn setting_field(s: Setting) -> int {
    match s {
        Setting::Notes(_) => 0,
        Setting::Architecture(_) => 1,
        Setting::MemoryMb(_) => 2,
        Setting::CpuCount(_) => 3,
        Setting::Hypervisor(_) => 4,
        Setting::NetworkMode(_) => 5,
        Setting::MacAddress(_) => 6,
        Setting::Display(_) => 7,
    }
}

/// The configuration `x` with the field of `s` replaced by its value.
pub open spec fn apply_setting(x: VmConfig, s: Setting) -> VmConfig {
    match s {
        Setting::Notes(n) => VmConfig { notes: Some(n), ..x },
        Setting::Architecture(a) => VmConfig { architecture: a, ..x },
        Setting::MemoryMb(mb) => VmConfig { memory_mb: mb, ..x },
        Setting::CpuCount(n) => VmConfig { cpu_count: n, ..x },
        Setting::Hypervisor(b) => VmConfig { hypervisor: b, ..x },
        Setting::NetworkMode(m) => VmConfig { network_mode: m, ..x },
        Setting::MacAddress(m) => VmConfig { mac_address: Some(m), ..x },
        Setting::Display(d) => VmConfig { display: d, ..x },
    }
}

/// Law: builder settings of different fields commute. For any two of notes, architecture,
/// memory, CPU count, hypervisor flag, network mode, MAC address and display that replace
/// different fields, applying them in either order gives the same configuration.
pub proof fn law_setters_commute(x: VmConfig, s: Setting, t: Setting)
    requires
        setting_field(s) != setting_field(t),
    ensures
        apply_setting(apply_setting(x, s), t) == apply_setting(apply_setting(x, t), s),
{
}

} // verus!
