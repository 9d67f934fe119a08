//! What is particular to a macOS host.
use crate::backend::{ImageToolConfig, ResolvConfMode};
use crate::command;
use crate::command::{Cmd, Outcome};
use crate::deeds;
use crate::deeds::Deed;
use crate::image::registry::ImageEntry;
use crate::linux::platform;
use crate::linux::platform::InfoRow;
use crate::macos::network;
use crate::paths;
use crate::state::vm::VmMetadata;
use crate::text;
use vstd::prelude::*;

verus! {

/// A macOS host.
#[derive(Clone, Copy, Debug, PartialEq, Eq)]
pub struct MacosPlatform;

/// The package that a program is in.
pub open spec fn package(name: Seq<char>) -> Seq<char> {
    if name == "gtar"@ {
        "gnu-tar"@
    } else {
        name
    }
}

fn disk_image(path: &String) -> (r: Vec<InfoRow>)
    ensures
        platform::row_views(r@) == seq![("Disk image"@, path@)],
{
    let mut v: Vec<InfoRow> = Vec::new();
    assert(platform::row_views(v@) =~= Seq::<(Seq<char>, Seq<char>)>::empty());
    platform::push_row(&mut v, "Disk image", path.clone());
    assert(platform::row_views(v@) =~= seq![("Disk image"@, path@)]);
    v
}

/// The command that tells how much memory the host has.
pub fn memory_command() -> (r: Cmd)
    ensures
        r@ == command::cmd("sysctl"@, seq!["-n"@, "hw.memsize"@], "sysctl"@, "sysctl hw.memsize"@),
        deeds::sysctl(r@) == Some(Deed::ShowParameter { name: "hw.memsize"@ }),
{
    proof {
        deeds::lemma_sysctl();
    }
    let r = command::command("sysctl", &["-n", "hw.memsize"], "sysctl", "sysctl hw.memsize");
    assert(r@.args =~= seq!["-n"@, "hw.memsize"@]);
    r
}

/// The size in bytes that a command printed, or what is wrong with it.
pub open spec fn printed_size(stdout: Seq<u8>) -> Result<u64, Seq<char>> {
    if !vstd::utf8::valid_utf8(stdout) {
        Err("sysctl output not utf-8: "@ + text::utf8_error_text(stdout))
    } else {
        match text::parse_uint(text::trim(vstd::utf8::decode_utf8(stdout)), u64::MAX as nat) {
            Ok(n) => Ok(n as u64),
            Err(e) => Err("parsing sysctl output: "@ + e.text()),
        }
    }
}

/// Memory of the host in bytes, from how the command ended.
pub open spec fn memory_size(o: Outcome) -> Result<u64, Seq<char>> {
    match o {
        Outcome::NotSpawned(why) => Err("running sysctl hw.memsize: "@ + why@),
        Outcome::Exited(out) => if out.success() {
            printed_size(out.stdout@)
        } else {
            Err("sysctl hw.memsize failed: "@ + text::trim(text::utf8_lossy(out.stderr@)))
        },
    }
}

impl MacosPlatform {
    /// How to install a program.
    pub fn install_hint(name: &str) -> (r: String)
        ensures
            r@ == "`brew install "@ + package(name@) + "`"@,
    {
        let pkg = if text::same(name, "gtar") {
            "gnu-tar"
        } else {
            name
        };
        text::cat3("`brew install ", pkg, "`")
    }

    /// Whether root privileges are needed.
    pub fn requires_root() -> (r: bool)
        ensures
            !r,
    {
        false
    }

    /// Where state is kept: below the home directory, where there is one.
    pub fn default_state_dir(home: Option<&str>) -> (r: String)
        ensures
            r@ == (match home {
                Some(h) => paths::joined(h@, "Library/Application Support/ember"@),
                None => "/var/lib/ember"@,
            }),
    {
        match home {
            Some(h) => paths::join(h, "Library/Application Support/ember"),
            None => "/var/lib/ember".to_owned(),
        }
    }

    pub fn default_ip_subnet(instance_id: &str) -> (r: String)
        requires
            network::id_number(instance_id@) is Some,
        ensures
            r@ == network::vmnet_subnet(network::id_number(instance_id@)->0),
    {
        network::derive_vmnet_subnet(instance_id)
    }

    pub fn console_device() -> (r: &'static str)
        ensures
            r@ == "hvc0"@,
    {
        "hvc0"
    }

    pub fn resolv_conf_mode() -> (r: ResolvConfMode)
        ensures
            r matches ResolvConfMode::StaticContent(p) && p@
                == "nameserver 8.8.8.8\nnameserver 1.1.1.1\n"@,
    {
        ResolvConfMode::StaticContent("nameserver 8.8.8.8\nnameserver 1.1.1.1\n")
    }

    /// Files are owned by root in an image. Who is not root needs a pretended one.
    pub fn image_tool_config(is_root: bool) -> (r: ImageToolConfig)
        ensures
            r.tar_command@ == "gtar"@,
            r.needs_fakeroot == !is_root,
            r.override_os is Some && r.override_os->0@ == "linux"@,
    {
        ImageToolConfig { tar_command: "gtar", needs_fakeroot: !is_root, override_os: Some("linux") }
    }

    pub fn init_hint() -> (r: &'static str)
        ensures
            r@ == "Run: ember init"@,
    {
        "Run: ember init"
    }

    /// What is shown of a VM.
    pub fn inspect_vm_extra(vm: &VmMetadata) -> (r: Vec<InfoRow>)
        ensures
            platform::row_views(r@) == seq![("Disk image"@, vm.disk_path@)],
    {
        disk_image(&vm.disk_path)
    }

    /// What is shown of an image.
    pub fn inspect_image_extra(entry: &ImageEntry) -> (r: Vec<InfoRow>)
        ensures
            platform::row_views(r@) == seq![("Disk image"@, entry.disk_path@)],
    {
        disk_image(&entry.disk_path)
    }

    /// What is shown of an installation: nothing.
    pub fn info_extra() -> (r: Vec<InfoRow>)
        ensures
            r@.len() == 0,
    {
        Vec::new()
    }

    /// Every VM can be paused.
    pub fn pre_pause_check(_vm: &VmMetadata) -> (r: Result<(), String>)
        ensures
            r is Ok,
    {
        Ok(())
    }

    /// The WAN interface to use, and what to tell the user: the one that was given,
    /// else the one that was detected.
    pub fn detect_wan_iface(user_provided: Option<&str>, detected: Result<String, String>) -> (r: (
        Option<String>,
        Vec<String>,
    ))
        ensures
            match (user_provided, detected) {
                (Some(i), _) => r.0 is Some && r.0->0@ == i@ && text::views(r.1@) == seq![
                    "Using user-provided WAN interface: "@ + i@,
                ],
                (None, Ok(i)) => r.0 == Some(i) && text::views(r.1@) == seq![
                    "Detected WAN interface: "@ + i@,
                ],
                (None, Err(e)) => r.0 is None && text::views(r.1@) == seq![
                    "Warning: could not detect WAN interface: "@ + e@,
                ],
            },
    {
        let (iface, message) = match user_provided {
            Some(i) => (
                Some(i.to_owned()),
                text::cat2("Using user-provided WAN interface: ", i),
            ),
            None => match detected {
                Ok(i) => {
                    let m = text::cat2("Detected WAN interface: ", i.as_str());
                    (Some(i), m)
                },
                Err(e) => (
                    None,
                    text::cat2("Warning: could not detect WAN interface: ", e.as_str()),
                ),
            },
        };
        let mut messages: Vec<String> = Vec::new();
        messages.push(message);
        assert(text::views(messages@) =~= seq![message@]);
        (iface, messages)
    }

    /// Memory of the host in MiB, from how the command ended. A size that does not
    /// fit is cut to its low bits.
    pub fn host_ram_mib(o: &Outcome) -> (r: Result<u32, String>)
        ensures
            match r {
                Ok(n) => memory_size(*o) is Ok && n == ((memory_size(*o)->Ok_0 / 1024 / 1024) as u32),
                Err(e) => memory_size(*o) == Err::<u64, Seq<char>>(e@),
            },
    {
        match o {
            Outcome::NotSpawned(why) => Err(
                text::cat2("running sysctl hw.memsize: ", why.as_str()),
            ),
            Outcome::Exited(out) => {
                if !out.succeeded() {
                    let s = text::trimmed(text::from_utf8_lossy(&out.stderr).as_str());
                    return Err(text::cat2("sysctl hw.memsize failed: ", s.as_str()));
                }
                match text::from_utf8(&out.stdout) {
                    Err(e) => Err(text::cat2("sysctl output not utf-8: ", e.as_str())),
                    Ok(s) => match text::parse_uint_str(text::trimmed(s.as_str()).as_str(), u64::MAX) {
                        Ok(bytes) => Ok((bytes / 1024 / 1024) as u32),
                        Err(e) => Err(text::cat2("parsing sysctl output: ", e.message())),
                    },
                }
            },
        }
    }
}

} // verus!
