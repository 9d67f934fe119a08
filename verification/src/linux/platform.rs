//! What is particular to a Linux host.
use crate::backend::{ImageToolConfig, ResolvConfMode};
use crate::config::{DmThinMode, GlobalConfig, StorageKind};
use crate::dm_thin::pool;
use crate::image::registry::ImageEntry;
use crate::network::subnet;
use crate::state::vm::VmMetadata;
use crate::text;
use vstd::prelude::*;

verus! {

/// A Linux host.
#[derive(Clone, Copy, Debug, PartialEq, Eq)]
pub struct LinuxPlatform;

/// One line of what is shown about something.
#[derive(Debug, PartialEq, Eq)]
pub struct InfoRow {
    pub label: &'static str,
    pub value: String,
}

impl View for InfoRow {
    type V = (Seq<char>, Seq<char>);

    open spec fn view(&self) -> (Seq<char>, Seq<char>) {
        (self.label@, self.value@)
    }
}

pub open spec fn row_views(v: Seq<InfoRow>) -> Seq<(Seq<char>, Seq<char>)> {
    Seq::new(v.len(), |i: int| v[i]@)
}

pub fn push_row(v: &mut Vec<InfoRow>, label: &'static str, value: String)
    ensures
        row_views(final(v)@) == row_views(old(v)@).push((label@, value@)),
{
    let ghost before = row_views(v@);
    let row = InfoRow { label, value };
    v.push(row);
    assert(row_views(v@) =~= before.push((label@, value@)));
}

/// What is shown of a disk.
pub open spec fn disk_rows(disk_path: Seq<char>, thin_id: Option<u64>) -> Seq<
    (Seq<char>, Seq<char>),
> {
    match thin_id {
        Some(id) => seq![("Thin device"@, disk_path), ("Thin id"@, text::dec(id as nat))],
        None => seq![("ZFS zvol"@, disk_path)],
    }
}

fn disk_info(disk_path: &String, thin_id: Option<u64>) -> (r: Vec<InfoRow>)
    ensures
        row_views(r@) == disk_rows(disk_path@, thin_id),
{
    let mut v: Vec<InfoRow> = Vec::new();
    assert(row_views(v@) =~= Seq::<(Seq<char>, Seq<char>)>::empty());
    match thin_id {
        Some(id) => {
            push_row(&mut v, "Thin device", disk_path.clone());
            push_row(&mut v, "Thin id", text::dec_u64(id));
        },
        None => {
            push_row(&mut v, "ZFS zvol", disk_path.clone());
        },
    }
    assert(row_views(v@) =~= disk_rows(disk_path@, thin_id));
    v
}

/// What is shown of a VM: its disk, its API socket and its TAP device.
pub open spec fn vm_rows(vm: VmMetadata) -> Seq<(Seq<char>, Seq<char>)> {
    let base = disk_rows(vm.disk_path@, vm.thin_id).push(("API socket"@, vm.api_socket@));
    match vm.network {
        Some(net) => base.push(("TAP device"@, net.tap_device@)),
        None => base,
    }
}

/// The rows about an optional value.
pub open spec fn opt_rows(label: Seq<char>, value: Option<Seq<char>>) -> Seq<
    (Seq<char>, Seq<char>),
> {
    match value {
        Some(v) => seq![(label, v)],
        None => Seq::empty(),
    }
}

pub open spec fn layout_text(mode: DmThinMode) -> Seq<char> {
    match mode {
        DmThinMode::File => "file-backed"@,
        DmThinMode::RawDevice => "raw device"@,
    }
}

pub open spec fn block_size_text(b: u32) -> Seq<char> {
    text::dec(b as nat) + " sectors ("@ + text::dec((b * 512 / 1024) as nat) + " KiB)"@
}

/// What is shown of the storage of an installation.
pub open spec fn storage_rows(config: GlobalConfig) -> Seq<(Seq<char>, Seq<char>)> {
    match config.storage_backend {
        StorageKind::Zfs => seq![
            ("ZFS pool"@, config.pool@),
            ("Dataset"@, config.pool@ + "/"@ + config.dataset@),
        ],
        StorageKind::DmThin => seq![
            (
                "dm-thin pool"@,
                pool::pool_text(crate::config::namespace_of(config.instance_id@)),
            ),
        ] + opt_rows(
            "Storage path"@,
            match config.storage_path {
                Some(p) => Some(p@),
                None => None,
            },
        ) + opt_rows(
            "Block size"@,
            match config.dm_thin_block_size {
                Some(b) => Some(block_size_text(b)),
                None => None,
            },
        ) + opt_rows(
            "Layout"@,
            match config.dm_thin_mode {
                Some(m) => Some(layout_text(m)),
                None => None,
            },
        ),
        StorageKind::Btrfs => seq![("btrfs"@, "(unimplemented)"@)],
    }
}

/// What is shown of an installation.
pub open spec fn config_rows(config: GlobalConfig) -> Seq<(Seq<char>, Seq<char>)> {
    storage_rows(config) + opt_rows(
        "WAN iface"@,
        match config.wan_iface {
            Some(w) => Some(w@),
            None => None,
        },
    )
}

/// The value on the first line that starts with `MemTotal:`, in KiB.
pub open spec fn mem_total(lines: Seq<Seq<char>>) -> Result<u64, Seq<char>>
    decreases lines.len(),
{
    if lines.len() == 0 {
        Err("MemTotal not found in /proc/meminfo"@)
    } else {
        match text::without_prefix(lines[0], "MemTotal:"@) {
            None => mem_total(lines.skip(1)),
            Some(rest) => {
                let w = text::words(rest);
                if w.len() == 0 {
                    Err("malformed MemTotal line: "@ + lines[0])
                } else {
                    match text::parse_uint(w[0], u64::MAX as nat) {
                        Ok(n) => Ok(n as u64),
                        Err(_) => Err("malformed MemTotal line: "@ + lines[0]),
                    }
                }
            },
        }
    }
}

impl LinuxPlatform {
    /// How to install a program.
    pub fn install_hint(name: &str) -> (r: String)
        ensures
            r@ == "`pacman -S "@ + name@ + "` or `apt install "@ + name@ + "`"@,
    {
        text::cat5("`pacman -S ", name, "` or `apt install ", name, "`")
    }

    /// Whether root privileges are needed.
    pub fn requires_root() -> (r: bool)
        ensures
            r,
    {
        true
    }

    pub fn default_state_dir() -> (r: &'static str)
        ensures
            r@ == "/var/lib/ember"@,
    {
        "/var/lib/ember"
    }

    pub fn default_ip_subnet(instance_id: &str) -> (r: String)
        ensures
            r@ == subnet::default_subnet(vstd::utf8::encode_utf8(instance_id@)),
    {
        subnet::derive_default_subnet(instance_id)
    }

    pub fn console_device() -> (r: &'static str)
        ensures
            r@ == "ttyS0"@,
    {
        "ttyS0"
    }

    pub fn resolv_conf_mode() -> (r: ResolvConfMode)
        ensures
            r matches ResolvConfMode::Symlink(p) && p@ == "/proc/net/pnp"@,
    {
        ResolvConfMode::Symlink("/proc/net/pnp")
    }

    pub fn image_tool_config() -> (r: ImageToolConfig)
        ensures
            r.tar_command@ == "tar"@,
            !r.needs_fakeroot,
            r.override_os is None,
    {
        ImageToolConfig { tar_command: "tar", needs_fakeroot: false, override_os: None }
    }

    pub fn init_hint() -> (r: &'static str)
        ensures
            r@ == "Run: ember init --pool <pool> --device <device>"@,
    {
        "Run: ember init --pool <pool> --device <device>"
    }

    /// What is shown of a VM.
    pub fn inspect_vm_extra(vm: &VmMetadata) -> (r: Vec<InfoRow>)
        ensures
            row_views(r@) == vm_rows(*vm),
    {
        let mut v = disk_info(&vm.disk_path, vm.thin_id);
        push_row(&mut v, "API socket", vm.api_socket.clone());
        if let Some(net) = &vm.network {
            push_row(&mut v, "TAP device", net.tap_device.clone());
        }
        v
    }

    /// What is shown of an image.
    pub fn inspect_image_extra(entry: &ImageEntry) -> (r: Vec<InfoRow>)
        ensures
            row_views(r@) == disk_rows(entry.disk_path@, entry.thin_id),
    {
        disk_info(&entry.disk_path, entry.thin_id)
    }

    /// What is shown of an installation.
    pub fn info_extra(config: &GlobalConfig) -> (r: Vec<InfoRow>)
        requires
            config.storage_backend == StorageKind::DmThin ==> (
            config.dm_thin_block_size matches Some(b) ==> b * 512 <= u32::MAX),
        ensures
            row_views(r@) == config_rows(*config),
    {
        let mut v: Vec<InfoRow> = Vec::new();
        assert(row_views(v@) =~= Seq::<(Seq<char>, Seq<char>)>::empty());
        match config.storage_backend {
            StorageKind::Zfs => {
                push_row(&mut v, "ZFS pool", config.pool.clone());
                push_row(
                    &mut v,
                    "Dataset",
                    text::cat3(config.pool.as_str(), "/", config.dataset.as_str()),
                );
            },
            StorageKind::DmThin => {
                push_row(&mut v, "dm-thin pool", pool::name(config.instance_namespace()));
                if let Some(p) = &config.storage_path {
                    push_row(&mut v, "Storage path", p.clone());
                }
                if let Some(b) = config.dm_thin_block_size {
                    let kib: u32 = b * 512 / 1024;
                    push_row(
                        &mut v,
                        "Block size",
                        text::cat4(
                            text::dec_u64(b as u64).as_str(),
                            " sectors (",
                            text::dec_u64(kib as u64).as_str(),
                            " KiB)",
                        ),
                    );
                }
                if let Some(m) = config.dm_thin_mode {
                    let layout = match m {
                        DmThinMode::File => "file-backed",
                        DmThinMode::RawDevice => "raw device",
                    };
                    push_row(&mut v, "Layout", layout.to_owned());
                }
            },
            StorageKind::Btrfs => {
                push_row(&mut v, "btrfs", "(unimplemented)".to_owned());
            },
        }
        assert(row_views(v@) =~= storage_rows(*config));
        if let Some(w) = &config.wan_iface {
            push_row(&mut v, "WAN iface", w.clone());
        }
        assert(row_views(v@) =~= config_rows(*config));
        v
    }

    /// Refuses to pause a VM whose API socket is gone.
    pub fn pre_pause_check(vm: &VmMetadata, socket_found: bool) -> (r: Result<(), String>)
        ensures
            match r {
                Ok(_) => socket_found,
                Err(e) => !socket_found && e@ == "vm '"@ + vm.name@
                    + "' is marked as running but API socket not found at "@ + vm.api_socket@
                    + "\nHint: the Firecracker process may have crashed — try 'ember vm stop --force "@
                    + vm.name@ + "' and restart"@,
            },
    {
        if socket_found {
            return Ok(());
        }
        Err(
            text::cat7(
                "vm '",
                vm.name.as_str(),
                "' is marked as running but API socket not found at ",
                vm.api_socket.as_str(),
                "\nHint: the Firecracker process may have crashed — try 'ember vm stop --force ",
                vm.name.as_str(),
                "' and restart",
            ),
        )
    }

    /// The WAN interface to use, and what to tell the user: the one that was given,
    /// else the one that was detected.
    pub fn detect_wan_iface(user_provided: Option<&str>, detected: Result<String, String>) -> (r: (
        Option<String>,
        Vec<String>,
    ))
        ensures
            match (user_provided, detected) {
                (Some(i), _) => r.0 is Some && r.0->0@ == i@ && text::views(r.1@) == seq![
                    "Using WAN interface '"@ + i@ + "' (from --wan-iface)."@,
                ],
                (None, Ok(i)) => r.0 == Some(i) && text::views(r.1@) == seq![
                    "Detected WAN interface: "@ + i@,
                ],
                (None, Err(e)) => r.0 is None && text::views(r.1@) == seq![
                    "Warning: could not detect WAN interface: "@ + e@,
                    "Networking will require --wan-iface at init time."@,
                ],
            },
    {
        let mut messages: Vec<String> = Vec::new();
        if let Some(i) = user_provided {
            messages.push(
                text::cat3("Using WAN interface '", i, "' (from --wan-iface)."),
            );
            assert(text::views(messages@) =~= seq![
                "Using WAN interface '"@ + i@ + "' (from --wan-iface)."@,
            ]);
            return (Some(i.to_owned()), messages);
        }
        match detected {
            Ok(i) => {
                messages.push(text::cat2("Detected WAN interface: ", i.as_str()));
                assert(text::views(messages@) =~= seq!["Detected WAN interface: "@ + i@]);
                (Some(i), messages)
            },
            Err(e) => {
                messages.push(
                    text::cat2("Warning: could not detect WAN interface: ", e.as_str()),
                );
                messages.push("Networking will require --wan-iface at init time.".to_owned());
                assert(text::views(messages@) =~= seq![
                    "Warning: could not detect WAN interface: "@ + e@,
                    "Networking will require --wan-iface at init time."@,
                ]);
                (None, messages)
            },
        }
    }

    /// Memory of the host in MiB, from `/proc/meminfo`. A size that does not fit is
    /// cut to its low bits.
    pub fn host_ram_mib(meminfo: &str) -> (r: Result<u32, String>)
        ensures
            match r {
                Ok(n) => mem_total(text::lines(meminfo@)) is Ok && n == ((mem_total(
                    text::lines(meminfo@),
                )->Ok_0 / 1024) as u32),
                Err(e) => mem_total(text::lines(meminfo@)) == Err::<u64, Seq<char>>(e@),
            },
    {
        let lines = text::split_lines(meminfo);
        let ghost v = text::views(lines@);
        let mut i: usize = 0;
        assert(v.skip(0) =~= v);
        while i < lines.len()
            invariant
                i <= lines.len(),
                v == text::views(lines@),
                v == text::lines(meminfo@),
                mem_total(v.skip(i as int)) == mem_total(v),
            decreases lines.len() - i,
        {
            let line = lines[i].as_str();
            proof {
                assert(v.skip(i as int)[0] == line@);
                assert(v.skip(i as int).skip(1) =~= v.skip(i + 1));
            }
            if let Some(rest) = text::strip_prefix(line, "MemTotal:") {
                let w = text::split_words(rest.as_str());
                assert(text::views(w@).len() == w.len());
                if w.len() == 0 {
                    return Err(text::cat2("malformed MemTotal line: ", line));
                }
                assert(text::views(w@)[0] == w@[0]@);
                match text::parse_uint_str(w[0].as_str(), u64::MAX) {
                    Ok(kib) => {
                        return Ok((kib / 1024) as u32);
                    },
                    Err(_) => return Err(text::cat2("malformed MemTotal line: ", line)),
                }
            }
            i += 1;
        }
        assert(v.skip(v.len() as int) =~= Seq::<Seq<char>>::empty());
        Err("MemTotal not found in /proc/meminfo".to_owned())
    }
}

} // verus!
