//! Named kernel presets, and how a kernel gets into the state directory.
//!
//! A [`KernelSpec`] is a preset or a path. Resolving one is a matter of looking
//! at files, copying and downloading; [`Resolution`] decides what to do next and
//! what to make of how it went.
pub mod container_build;
pub mod laws;

use crate::host::{Arch, Os};
use crate::paths;
use crate::text;
use vstd::prelude::*;

verus! {

// ----------------------------------------------------------------- presets

/// Named kernel presets.
#[derive(Clone, Copy, Debug, PartialEq, Eq, Structural)]
pub enum KernelPreset {
    /// Firecracker CI kernel.
    Stock,
    /// Kernel with Docker networking support, built locally.
    Docker,
}

/// The kernel preset used when no kernel is specified.
pub const DEFAULT_PRESET: KernelPreset = KernelPreset::Docker;

/// Why the stock kernel is refused on macOS.
pub open spec fn stock_refusal() -> Seq<char> {
    "--kernel stock is not supported on macOS.\nThe Firecracker CI kernel lacks virtio-pci/virtio-console drivers required by\nApple Virtualization. Build a macOS-compatible kernel with:\nember kernel build"@
}

impl KernelPreset {
    pub open spec fn url_text(self, arch: Arch) -> Option<Seq<char>> {
        match self {
            KernelPreset::Stock => Some(
                "https://s3.amazonaws.com/spec.ccfc.min/firecracker-ci/v1.11/"@ + arch.text()
                    + "/vmlinux-6.1.102"@,
            ),
            KernelPreset::Docker => None,
        }
    }

    /// Download URL for this preset; `None` where it must be built locally.
    pub fn url(&self, arch: Arch) -> (r: Option<String>)
        ensures
            match r {
                Some(u) => self.url_text(arch) == Some(u@),
                None => self.url_text(arch) is None,
            },
    {
        match self {
            KernelPreset::Stock => Some(
                text::cat3(
                    "https://s3.amazonaws.com/spec.ccfc.min/firecracker-ci/v1.11/",
                    arch.name(),
                    "/vmlinux-6.1.102",
                ),
            ),
            KernelPreset::Docker => None,
        }
    }

    pub open spec fn file_text(self) -> Seq<char> {
        match self {
            KernelPreset::Stock => "vmlinux-6.1.102"@,
            KernelPreset::Docker => "vmlinux-docker-6.1.163"@,
        }
    }

    /// File name of this kernel in the kernels directory.
    pub fn filename(&self) -> (r: &'static str)
        ensures
            r@ == self.file_text(),
    {
        match self {
            KernelPreset::Stock => "vmlinux-6.1.102",
            KernelPreset::Docker => "vmlinux-docker-6.1.163",
        }
    }

    pub open spec fn text(self) -> Seq<char> {
        match self {
            KernelPreset::Stock => "stock"@,
            KernelPreset::Docker => "docker"@,
        }
    }

    /// The name of the preset.
    pub fn to_string(&self) -> (r: String)
        ensures
            r@ == self.text(),
    {
        match self {
            KernelPreset::Stock => "stock".to_owned(),
            KernelPreset::Docker => "docker".to_owned(),
        }
    }

    /// The preset that a name stands for, in upper or lower case, or why there is
    /// none.
    pub open spec fn named(s: Seq<char>, os: Os) -> Result<KernelPreset, Seq<char>> {
        if text::lowercase(s) == "stock"@ {
            if os == Os::Macos {
                Err(stock_refusal())
            } else {
                Ok(KernelPreset::Stock)
            }
        } else if text::lowercase(s) == "docker"@ {
            Ok(KernelPreset::Docker)
        } else {
            Err("unknown kernel preset '"@ + s + "'"@)
        }
    }

    /// Reads the name of a preset.
    pub fn from_str(s: &str, os: Os) -> (r: Result<KernelPreset, String>)
        ensures
            match r {
                Ok(p) => Self::named(s@, os) == Ok::<KernelPreset, Seq<char>>(p),
                Err(e) => Self::named(s@, os) == Err::<KernelPreset, Seq<char>>(e@),
            },
    {
        let lower = text::to_ascii_lowercase(s);
        if text::same(lower.as_str(), "stock") {
            match os {
                Os::Macos => Err(
                    "--kernel stock is not supported on macOS.\nThe Firecracker CI kernel lacks virtio-pci/virtio-console drivers required by\nApple Virtualization. Build a macOS-compatible kernel with:\nember kernel build".to_owned(),
                ),
                Os::Linux => Ok(KernelPreset::Stock),
            }
        } else if text::same(lower.as_str(), "docker") {
            Ok(KernelPreset::Docker)
        } else {
            Err(text::cat3("unknown kernel preset '", s, "'"))
        }
    }
}

/// A preset or a path.
#[derive(Clone, Debug, PartialEq)]
pub enum KernelSpec {
    Preset(KernelPreset),
    Path(String),
}

/// What a [`KernelSpec`] says.
pub enum SpecView {
    Preset(KernelPreset),
    Path(Seq<char>),
}

impl View for KernelSpec {
    type V = SpecView;

    open spec fn view(&self) -> SpecView {
        match self {
            KernelSpec::Preset(p) => SpecView::Preset(*p),
            KernelSpec::Path(s) => SpecView::Path(s@),
        }
    }
}

/// Whether a string is the name of a preset, allowed here or not.
pub open spec fn is_preset_name(s: Seq<char>) -> bool {
    text::lowercase(s) == "stock"@ || text::lowercase(s) == "docker"@
}

/// What a string says of a kernel: the name of a preset is never a path.
pub open spec fn spec_named(s: Seq<char>, os: Os) -> Result<SpecView, Seq<char>> {
    if is_preset_name(s) {
        match KernelPreset::named(s, os) {
            Ok(p) => Ok(SpecView::Preset(p)),
            Err(e) => Err(e),
        }
    } else {
        Ok(SpecView::Path(s))
    }
}

impl KernelSpec {
    /// Reads a kernel specification.
    pub fn from_str(s: &str, os: Os) -> (r: Result<KernelSpec, String>)
        ensures
            match r {
                Ok(k) => spec_named(s@, os) == Ok::<SpecView, Seq<char>>(k@),
                Err(e) => spec_named(s@, os) == Err::<SpecView, Seq<char>>(e@),
            },
    {
        let lower = text::to_ascii_lowercase(s);
        if text::same(lower.as_str(), "stock") || text::same(lower.as_str(), "docker") {
            match KernelPreset::from_str(s, os) {
                Ok(p) => Ok(KernelSpec::Preset(p)),
                Err(e) => Err(e),
            }
        } else {
            Ok(KernelSpec::Path(s.to_owned()))
        }
    }

    pub open spec fn text(self) -> Seq<char> {
        match self {
            KernelSpec::Preset(p) => p.text(),
            KernelSpec::Path(s) => s@,
        }
    }

    /// The name of the preset, or the path.
    pub fn to_string(&self) -> (r: String)
        ensures
            r@ == self.text(),
    {
        match self {
            KernelSpec::Preset(p) => p.to_string(),
            KernelSpec::Path(s) => s.clone(),
        }
    }
}

// ------------------------------------------------------------------- images

/// How many bytes of a kernel image tell its kind.
pub const KERNEL_HEADER_LEN: usize = 60;

/// What reading the start of a kernel image gave.
#[derive(Debug, PartialEq)]
pub enum ImageProbe {
    /// The file could not be read, for the given reason.
    Unreadable(String),
    /// Size of the file, and its first bytes, at most [`KERNEL_HEADER_LEN`].
    Read { size: u64, header: Vec<u8> },
}

/// An ELF file: what Firecracker boots.
pub open spec fn is_elf(h: Seq<u8>) -> bool {
    h.len() >= 4 && h[0] == 0x7f && h[1] == 0x45 && h[2] == 0x4c && h[3] == 0x46
}

/// An arm64 boot image: what Apple Virtualization boots.
pub open spec fn is_arm64_image(h: Seq<u8>) -> bool {
    h.len() >= 60 && h[56] == 0x41 && h[57] == 0x52 && h[58] == 0x4d && h[59] == 0x64
}

/// Whether a file could plausibly boot.
pub open spec fn bootable(p: ImageProbe) -> bool {
    p matches ImageProbe::Read { size, header } && size > 0 && (is_elf(header@) || is_arm64_image(
        header@,
    ))
}

/// The first `n` bytes in hexadecimal.
pub open spec fn hex_list(h: Seq<u8>, n: int) -> Seq<Seq<char>>
    decreases n,
{
    if n <= 0 {
        Seq::empty()
    } else {
        hex_list(h, n - 1).push(text::hex_fixed(h[n - 1] as nat, 2))
    }
}

/// What is wrong with a file that cannot boot.
pub open spec fn image_fault(path: Seq<char>, p: ImageProbe) -> Seq<char> {
    match p {
        ImageProbe::Unreadable(e) => "kernel '"@ + path + "': "@ + e@,
        ImageProbe::Read { size, header } => if size == 0 {
            "kernel '"@ + path
                + "' is 0 bytes — refusing to record an unbootable kernel.\nHint: restore a known-good kernel image, or run `ember kernel build` to compile one."@
        } else {
            "kernel '"@ + path + "' ("@ + text::dec(size as nat)
                + " bytes) is not a bootable kernel image: expected ELF magic \\x7fELF or an arm64 boot Image, but the file starts with ["@
                + text::join(
                hex_list(
                    header@,
                    if header@.len() < 4 {
                        header@.len() as int
                    } else {
                        4
                    },
                ),
                " "@,
            )
                + "].\nHint: point --kernel at an uncompressed vmlinux (not a bzImage, tarball, or partial download), or run `ember kernel build` to compile one."@
        },
    }
}

/// Accepts a file only if it could plausibly boot: not empty, and an ELF file or
/// an arm64 boot image.
pub fn validate_kernel_image(path: &str, probe: &ImageProbe) -> (r: Result<(), String>)
    ensures
        match r {
            Ok(_) => bootable(*probe),
            Err(e) => !bootable(*probe) && e@ == image_fault(path@, *probe),
        },
{
    match probe {
        ImageProbe::Unreadable(e) => Err(text::cat4("kernel '", path, "': ", e.as_str())),
        ImageProbe::Read { size, header } => {
            if *size == 0 {
                return Err(
                    text::cat3(
                        "kernel '",
                        path,
                        "' is 0 bytes — refusing to record an unbootable kernel.\nHint: restore a known-good kernel image, or run `ember kernel build` to compile one.",
                    ),
                );
            }
            let elf = header.len() >= 4 && header[0] == 0x7f && header[1] == 0x45 && header[2]
                == 0x4c && header[3] == 0x46;
            let arm = header.len() >= 60 && header[56] == 0x41 && header[57] == 0x52 && header[58]
                == 0x4d && header[59] == 0x64;
            if elf || arm {
                return Ok(());
            }
            let n: usize = if header.len() < 4 {
                header.len()
            } else {
                4
            };
            let mut head: Vec<String> = Vec::new();
            let mut i: usize = 0;
            assert(text::views(head@) =~= Seq::<Seq<char>>::empty());
            while i < n
                invariant
                    i <= n <= header.len(),
                    text::views(head@) == hex_list(header@, i as int),
                decreases n - i,
            {
                let h = text::hex_u64(header[i] as u64, 2);
                proof {
                    text::lemma_views_push(head@, h);
                }
                head.push(h);
                i += 1;
            }
            let list = text::join_strings(&head, " ");
            Err(
                text::cat7(
                    "kernel '",
                    path,
                    "' (",
                    text::dec_u64(*size).as_str(),
                    " bytes) is not a bootable kernel image: expected ELF magic \\x7fELF or an arm64 boot Image, but the file starts with [",
                    list.as_str(),
                    "].\nHint: point --kernel at an uncompressed vmlinux (not a bzImage, tarball, or partial download), or run `ember kernel build` to compile one.",
                ),
            )
        },
    }
}

/// What identifies the file at a path, as far as it can be found out.
#[derive(Debug, PartialEq)]
pub struct FileId {
    /// The path with all links resolved.
    pub canonical: Option<String>,
    /// Device and inode.
    pub inode: Option<(u64, u64)>,
}

/// Two paths name the same file where they resolve to the same path, or to the
/// same inode of the same device. A missing file is the same as no other.
pub open spec fn same_file(a: FileId, b: FileId) -> bool {
    ||| (a.canonical is Some && b.canonical is Some && a.canonical->0@ == b.canonical->0@)
    ||| (a.inode is Some && b.inode is Some && a.inode->0 == b.inode->0)
}

/// Whether two paths name the same file.
pub fn is_same_file(a: &FileId, b: &FileId) -> (r: bool)
    ensures
        r == same_file(*a, *b),
{
    match (&a.canonical, &b.canonical) {
        (Some(x), Some(y)) => {
            if text::same(x.as_str(), y.as_str()) {
                return true;
            }
        },
        _ => {},
    }
    match (a.inode, b.inode) {
        (Some(x), Some(y)) => x.0 == y.0 && x.1 == y.1,
        _ => false,
    }
}

// ---------------------------------------------------------------- resolving

/// What to do next to resolve a kernel, or how it ended.
#[derive(Clone, Copy, Debug, PartialEq, Eq, Structural)]
pub enum Phase {
    /// Resolve the links of the given path.
    Canonicalize,
    /// Identify the source and the destination.
    Compare,
    /// Read the start of the destination, which is the source.
    ProbeInPlace,
    /// Read the start of the source.
    ProbeSource,
    /// Copy the source to the destination.
    Copy,
    /// Read the start of the copy.
    ProbeCopy,
    /// See whether the destination exists.
    LookUp,
    /// Read the start of the kernel found there.
    ProbeCached,
    /// Download to the partial file.
    Download,
    /// Read the start of the partial file.
    ProbePartial,
    /// Rename the partial file to the destination.
    Install,
    /// Remove the partial file.
    RemovePartial,
    /// The destination was there already, and is the source.
    InPlace,
    /// The destination is a copy of the source.
    Copied,
    /// The destination was there already.
    Cached,
    /// The destination was downloaded.
    Downloaded,
    /// There is no kernel; the reason is recorded.
    Failed,
}

impl Phase {
    pub open spec fn succeeded(self) -> bool {
        self == Phase::InPlace || self == Phase::Copied || self == Phase::Cached || self
            == Phase::Downloaded
    }

    pub open spec fn ended(self) -> bool {
        self.succeeded() || self == Phase::Failed
    }

    /// How many steps are left at most.
    pub open spec fn rank(self) -> nat {
        match self {
            Phase::Canonicalize => 6,
            Phase::Compare => 5,
            Phase::ProbeSource => 4,
            Phase::ProbeInPlace => 3,
            Phase::Copy => 3,
            Phase::ProbeCopy => 2,
            Phase::LookUp => 6,
            Phase::ProbeCached => 5,
            Phase::Download => 5,
            Phase::ProbePartial => 4,
            Phase::Install => 3,
            Phase::RemovePartial => 2,
            _ => 0,
        }
    }
}

/// The phase after one that went well or not.
pub open spec fn next_phase(p: Phase, good: bool, downloadable: bool) -> Phase {
    match (p, good) {
        (Phase::Canonicalize, true) => Phase::Compare,
        (Phase::Compare, true) => Phase::ProbeInPlace,
        (Phase::Compare, false) => Phase::ProbeSource,
        (Phase::ProbeInPlace, true) => Phase::InPlace,
        (Phase::ProbeSource, true) => Phase::Copy,
        (Phase::Copy, true) => Phase::ProbeCopy,
        (Phase::ProbeCopy, true) => Phase::Copied,
        (Phase::LookUp, true) => Phase::ProbeCached,
        (Phase::LookUp, false) => if downloadable {
            Phase::Download
        } else {
            Phase::Failed
        },
        (Phase::ProbeCached, true) => Phase::Cached,
        (Phase::Download, true) => Phase::ProbePartial,
        (Phase::ProbePartial, true) => Phase::Install,
        (Phase::Install, true) => Phase::Downloaded,
        (Phase::Download, false) => Phase::RemovePartial,
        (Phase::ProbePartial, false) => Phase::RemovePartial,
        (Phase::Install, false) => Phase::RemovePartial,
        (Phase::InPlace, _) => p,
        (Phase::Copied, _) => p,
        (Phase::Cached, _) => p,
        (Phase::Downloaded, _) => p,
        _ => Phase::Failed,
    }
}

fn following(p: Phase, good: bool, downloadable: bool) -> (r: Phase)
    ensures
        r == next_phase(p, good, downloadable),
{
    match p {
        Phase::Canonicalize if good => Phase::Compare,
        Phase::Compare => if good {
            Phase::ProbeInPlace
        } else {
            Phase::ProbeSource
        },
        Phase::ProbeInPlace if good => Phase::InPlace,
        Phase::ProbeSource if good => Phase::Copy,
        Phase::Copy if good => Phase::ProbeCopy,
        Phase::ProbeCopy if good => Phase::Copied,
        Phase::LookUp => if good {
            Phase::ProbeCached
        } else if downloadable {
            Phase::Download
        } else {
            Phase::Failed
        },
        Phase::ProbeCached if good => Phase::Cached,
        Phase::Download => if good {
            Phase::ProbePartial
        } else {
            Phase::RemovePartial
        },
        Phase::ProbePartial => if good {
            Phase::Install
        } else {
            Phase::RemovePartial
        },
        Phase::Install => if good {
            Phase::Downloaded
        } else {
            Phase::RemovePartial
        },
        Phase::InPlace | Phase::Copied | Phase::Cached | Phase::Downloaded => p,
        _ => Phase::Failed,
    }
}

/// What came of a phase.
#[derive(Debug, PartialEq)]
pub enum ResolveEvent {
    /// The path with its links resolved, or why that failed.
    Canonical(Result<String, String>),
    /// What the source and the destination are.
    Identified(FileId, FileId),
    /// What reading the start of a file gave.
    Probed(ImageProbe),
    /// Whether a copy, download, rename or removal worked, or why not.
    Finished(Result<(), String>),
    /// Whether the destination exists.
    Found(bool),
}

/// Whether an event can come of a phase.
pub open spec fn fits(p: Phase, ev: ResolveEvent) -> bool {
    match p {
        Phase::Canonicalize => ev is Canonical,
        Phase::Compare => ev is Identified,
        Phase::ProbeInPlace | Phase::ProbeSource | Phase::ProbeCopy | Phase::ProbeCached
        | Phase::ProbePartial => ev is Probed,
        Phase::Copy | Phase::Download | Phase::Install | Phase::RemovePartial => ev is Finished,
        Phase::LookUp => ev is Found,
        _ => false,
    }
}

/// Whether an event is good news.
pub open spec fn good_news(ev: ResolveEvent) -> bool {
    match ev {
        ResolveEvent::Canonical(r) => r is Ok && paths::last_name(r->Ok_0@) is Some,
        ResolveEvent::Identified(a, b) => same_file(a, b),
        ResolveEvent::Probed(p) => bootable(p),
        ResolveEvent::Finished(r) => r is Ok,
        ResolveEvent::Found(b) => b,
    }
}

/// A kernel on its way into the kernels directory.
#[derive(Debug, PartialEq)]
pub struct Resolution {
    pub phase: Phase,
    /// Where kernels are kept.
    pub kernel_dir: String,
    /// The given path, later with its links resolved.
    pub src: String,
    /// Where the kernel is to be.
    pub dest: String,
    /// Where to download it from.
    pub url: Option<String>,
    /// The preset asked for.
    pub preset: Option<KernelPreset>,
    pub os: Os,
    /// Why there is no kernel.
    pub error: String,
}

/// Why a preset that must be built is not there.
pub open spec fn not_built_text(os: Os) -> Seq<char> {
    match os {
        Os::Macos => "Default kernel has not been built yet.\nHint: run `ember kernel build` to compile a macOS-compatible kernel."@,
        Os::Linux => "Default kernel has not been built yet.\nHint: run `sudo ember kernel build` to compile a kernel with Docker networking support,\nor use `--kernel stock` for a pre-built kernel without Docker support."@,
    }
}

impl Resolution {
    /// Where the download goes first.
    pub open spec fn partial_text(self) -> Seq<char> {
        self.dest@ + ".partial"@
    }

    /// Where the download goes first.
    pub fn partial(&self) -> (r: String)
        ensures
            r@ == self.partial_text(),
    {
        text::cat2(self.dest.as_str(), ".partial")
    }

    /// The file that a phase reads the start of.
    pub open spec fn probed_text(self) -> Seq<char> {
        match self.phase {
            Phase::ProbeSource => self.src@,
            Phase::ProbePartial => self.partial_text(),
            _ => self.dest@,
        }
    }

    /// The file that the phase reads the start of.
    pub fn probed(&self) -> (r: String)
        ensures
            r@ == self.probed_text(),
    {
        match self.phase {
            Phase::ProbeSource => self.src.clone(),
            Phase::ProbePartial => self.partial(),
            _ => self.dest.clone(),
        }
    }

    /// Why a phase that brought bad news ends the resolution.
    pub open spec fn fault(self, ev: ResolveEvent) -> Seq<char> {
        match ev {
            ResolveEvent::Canonical(Err(e)) => "kernel path '"@ + self.src@ + "': "@ + e@,
            ResolveEvent::Canonical(Ok(_)) => "kernel path has no filename"@,
            ResolveEvent::Identified(_, _) => Seq::empty(),
            ResolveEvent::Probed(p) => image_fault(self.probed_text(), p),
            ResolveEvent::Finished(Err(e)) => match self.phase {
                Phase::Copy => "failed to copy kernel '"@ + self.src@ + "' → '"@ + self.dest@
                    + "': "@ + e@,
                Phase::Install => "failed to install kernel '"@ + self.partial_text() + "' → '"@
                    + self.dest@ + "': "@ + e@,
                _ => e@,
            },
            ResolveEvent::Finished(Ok(_)) => Seq::empty(),
            ResolveEvent::Found(_) => not_built_text(self.os),
        }
    }

    /// What to tell the user once there is a kernel.
    pub open spec fn report_text(self) -> Seq<char> {
        match self.phase {
            Phase::InPlace => "Kernel already in place at "@ + self.dest@ + " — nothing to copy."@,
            Phase::Copied => "Copied kernel "@ + self.src@ + " → "@ + self.dest@,
            Phase::Cached => "Using "@ + (match self.preset {
                Some(p) => p.text(),
                None => Seq::empty(),
            }) + " kernel at "@ + self.dest@,
            _ => "Kernel saved to "@ + self.dest@,
        }
    }

    /// What to tell the user once there is a kernel.
    pub fn report(&self) -> (r: String)
        requires
            self.phase.succeeded(),
        ensures
            r@ == self.report_text(),
    {
        match self.phase {
            Phase::InPlace => text::cat3(
                "Kernel already in place at ",
                self.dest.as_str(),
                " — nothing to copy.",
            ),
            Phase::Copied => text::cat4(
                "Copied kernel ",
                self.src.as_str(),
                " → ",
                self.dest.as_str(),
            ),
            Phase::Cached => {
                let name = match self.preset {
                    Some(p) => p.to_string(),
                    None => {
                        let s = String::new();
                        assert(s@ =~= Seq::<char>::empty());
                        s
                    },
                };
                text::cat4("Using ", name.as_str(), " kernel at ", self.dest.as_str())
            },
            _ => text::cat2("Kernel saved to ", self.dest.as_str()),
        }
    }

    fn fault_message(&self, ev: &ResolveEvent) -> (r: String)
        requires
            fits(self.phase, *ev),
            !good_news(*ev),
        ensures
            r@ == self.fault(*ev),
    {
        match ev {
            ResolveEvent::Canonical(Err(e)) => text::cat4(
                "kernel path '",
                self.src.as_str(),
                "': ",
                e.as_str(),
            ),
            ResolveEvent::Canonical(Ok(_)) => "kernel path has no filename".to_owned(),
            ResolveEvent::Probed(p) => {
                let path = self.probed();
                match validate_kernel_image(path.as_str(), p) {
                    Err(e) => e,
                    Ok(_) => String::new(),
                }
            },
            ResolveEvent::Finished(Err(e)) => match self.phase {
                Phase::Copy => text::cat6(
                    "failed to copy kernel '",
                    self.src.as_str(),
                    "' → '",
                    self.dest.as_str(),
                    "': ",
                    e.as_str(),
                ),
                Phase::Install => text::cat6(
                    "failed to install kernel '",
                    self.partial().as_str(),
                    "' → '",
                    self.dest.as_str(),
                    "': ",
                    e.as_str(),
                ),
                _ => e.clone(),
            },
            ResolveEvent::Found(_) => match self.os {
                Os::Macos => "Default kernel has not been built yet.\nHint: run `ember kernel build` to compile a macOS-compatible kernel.".to_owned(),
                Os::Linux => "Default kernel has not been built yet.\nHint: run `sudo ember kernel build` to compile a kernel with Docker networking support,\nor use `--kernel stock` for a pre-built kernel without Docker support.".to_owned(),
            },
            _ => {
                let s = String::new();
                assert(s@ =~= Seq::<char>::empty());
                s
            },
        }
    }

    /// Takes note of what came of the current phase and moves to the next one.
    ///
    /// The first bad news that ends the resolution is kept as its error; a
    /// removal keeps the error that led to it.
    pub fn advance(&mut self, ev: ResolveEvent)
        requires
            fits(old(self).phase, ev),
        ensures
            final(self).phase == next_phase(old(self).phase, good_news(ev), old(self).url is Some),
            good_news(ev) ==> (ev matches ResolveEvent::Canonical(Ok(p)) ==> final(self).src@ == p@
                && final(self).dest@ == paths::joined(
                old(self).kernel_dir@,
                paths::last_name(p@)->0,
            )),
            !(ev is Canonical && good_news(ev)) ==> final(self).src@ == old(self).src@ && final(self).dest@ == old(self).dest@,
            final(self).error@ == (if old(self).phase != Phase::RemovePartial && (final(self).phase
                == Phase::Failed || final(self).phase == Phase::RemovePartial) {
                old(self).fault(ev)
            } else {
                old(self).error@
            }),
            final(self).kernel_dir == old(self).kernel_dir,
            final(self).url == old(self).url,
            final(self).preset == old(self).preset,
            final(self).os == old(self).os,
    {
        let good = match &ev {
            ResolveEvent::Canonical(Ok(p)) => paths::file_name(p.as_str()).is_some(),
            ResolveEvent::Canonical(Err(_)) => false,
            ResolveEvent::Identified(a, b) => is_same_file(a, b),
            ResolveEvent::Probed(p) => validate_kernel_image("", p).is_ok(),
            ResolveEvent::Finished(r) => r.is_ok(),
            ResolveEvent::Found(b) => *b,
        };
        let next = following(self.phase, good, self.url.is_some());
        let ends = match next {
            Phase::Failed => true,
            Phase::RemovePartial => true,
            _ => false,
        };
        let removal = match self.phase {
            Phase::RemovePartial => true,
            _ => false,
        };
        if ends && !removal {
            let e = self.fault_message(&ev);
            self.error = e;
        }
        if let ResolveEvent::Canonical(Ok(p)) = ev {
            if let Some(name) = paths::file_name(p.as_str()) {
                self.dest = paths::join(self.kernel_dir.as_str(), name.as_str());
                self.src = p;
            }
        }
        self.phase = next;
    }
}

impl KernelSpec {
    /// Starts to resolve the specification to a file in `kernel_dir`.
    pub fn resolve(&self, kernel_dir: &str, home: Option<&str>, os: Os, arch: Arch) -> (r:
        Resolution)
        ensures
            r.kernel_dir@ == kernel_dir@,
            r.os == os,
            r.error@ == Seq::<char>::empty(),
            match self {
                KernelSpec::Path(p) => r.phase == Phase::Canonicalize && r.src@ == paths::expanded(
                    p@,
                    match home {
                        Some(h) => Some(h@),
                        None => None,
                    },
                ) && r.dest@ == Seq::<char>::empty() && r.url is None && r.preset is None,
                KernelSpec::Preset(p) => r.phase == Phase::LookUp && r.src@ == Seq::<char>::empty()
                    && r.dest@ == paths::joined(kernel_dir@, p.file_text()) && r.preset == Some(*p)
                    && (match r.url {
                    Some(u) => p.url_text(arch) == Some(u@),
                    None => p.url_text(arch) is None,
                }),
            },
    {
        let none = String::new();
        assert(none@ =~= Seq::<char>::empty());
        match self {
            KernelSpec::Path(p) => Resolution {
                phase: Phase::Canonicalize,
                kernel_dir: kernel_dir.to_owned(),
                src: paths::expand_tilde(p.as_str(), home),
                dest: none.clone(),
                url: None,
                preset: None,
                os,
                error: none,
            },
            KernelSpec::Preset(p) => Resolution {
                phase: Phase::LookUp,
                kernel_dir: kernel_dir.to_owned(),
                src: none.clone(),
                dest: paths::join(kernel_dir, p.filename()),
                url: p.url(arch),
                preset: Some(*p),
                os,
                error: none,
            },
        }
    }
}

/// Arguments of `curl` that download `url` to `dest`.
pub fn download_args(url: &str, dest: &str) -> (r: Vec<String>)
    ensures
        text::views(r@) == seq!["-fSL"@, "-o"@, dest@, url@],
{
    let r = crate::command::strings(&["-fSL", "-o", dest, url]);
    assert(text::views(r@) =~= seq!["-fSL"@, "-o"@, dest@, url@]);
    r
}

// --------------------------------------------------------------------- laws

/// Where resolving gets to from a phase, given whether each news is good.
pub open spec fn settled(p: Phase, news: Seq<bool>, downloadable: bool) -> Phase
    decreases news.len(),
{
    if news.len() == 0 || p.ended() {
        p
    } else {
        settled(next_phase(p, news[0], downloadable), news.skip(1), downloadable)
    }
}

/// Whether resolving comes to the phase `q` and gets the given news there.
pub open spec fn heard(p: Phase, news: Seq<bool>, downloadable: bool, q: Phase, good: bool) -> bool
    decreases news.len(),
{
    news.len() > 0 && !p.ended() && (p == q && news[0] == good || heard(
        next_phase(p, news[0], downloadable),
        news.skip(1),
        downloadable,
        q,
        good,
    ))
}

/// Whether resolving comes to the phase `q` and does it, well or badly.
pub open spec fn did(p: Phase, news: Seq<bool>, downloadable: bool, q: Phase) -> bool {
    heard(p, news, downloadable, q, true) || heard(p, news, downloadable, q, false)
}

/// A kernel is copied only from a source that was found bootable, and only where
/// the source and the destination were found to be different files. For a preset
/// nothing is copied.
pub proof fn law_copy_is_safe(news: Seq<bool>, downloadable: bool)
    ensures
        ({
            let p = Phase::Canonicalize;
            did(p, news, downloadable, Phase::Copy) ==> heard(
                p,
                news,
                downloadable,
                Phase::Compare,
                false,
            ) && heard(p, news, downloadable, Phase::ProbeSource, true)
        }),
        !did(Phase::LookUp, news, downloadable, Phase::Copy),
{
    reveal_with_fuel(heard, 7);
}

/// Whatever is handed back was found bootable: where it is, after it was copied
/// there, or, for a download, before it was renamed into place.
pub proof fn law_result_is_validated(news: Seq<bool>, downloadable: bool)
    ensures
        ({
            let p = Phase::Canonicalize;
            let end = settled(p, news, downloadable);
            end.succeeded() ==> heard(p, news, downloadable, Phase::ProbeInPlace, true) || heard(
                p,
                news,
                downloadable,
                Phase::ProbeCopy,
                true,
            )
        }),
        ({
            let p = Phase::LookUp;
            let end = settled(p, news, downloadable);
            end.succeeded() ==> heard(p, news, downloadable, Phase::ProbeCached, true) || heard(
                p,
                news,
                downloadable,
                Phase::ProbePartial,
                true,
            ) && heard(p, news, downloadable, Phase::Install, true)
        }),
{
    reveal_with_fuel(heard, 7);
    reveal_with_fuel(settled, 7);
}

/// A download that fails at any point is removed, and one is made only where the
/// kernel was not there and can be downloaded.
pub proof fn law_failed_download_is_removed(news: Seq<bool>, downloadable: bool)
    ensures
        ({
            let p = Phase::LookUp;
            let end = settled(p, news, downloadable);
            &&& end == Phase::Failed && did(p, news, downloadable, Phase::Download) ==> did(
                p,
                news,
                downloadable,
                Phase::RemovePartial,
            )
            &&& did(p, news, downloadable, Phase::Download) ==> downloadable && heard(
                p,
                news,
                downloadable,
                Phase::LookUp,
                false,
            )
        }),
{
    reveal_with_fuel(heard, 7);
    reveal_with_fuel(settled, 7);
}

/// Resolving comes to an end: after as many news as there are steps left at most.
pub proof fn law_resolving_ends(p: Phase, news: Seq<bool>, downloadable: bool)
    requires
        news.len() >= p.rank(),
    ensures
        settled(p, news, downloadable).ended(),
    decreases news.len(),
{
    if news.len() > 0 && !p.ended() {
        law_resolving_ends(next_phase(p, news[0], downloadable), news.skip(1), downloadable);
    }
}

/// The name of a preset reads back as that preset wherever it is allowed.
pub proof fn law_preset_name_round_trip(p: KernelPreset, os: Os)
    ensures
        os == Os::Linux || p == KernelPreset::Docker ==> KernelPreset::named(p.text(), os) == Ok::<
            KernelPreset,
            Seq<char>,
        >(p),
{
    reveal_strlit("stock");
    reveal_strlit("docker");
    assert(text::lowercase("stock"@) =~= "stock"@);
    assert(text::lowercase("docker"@) =~= "docker"@);
    assert("stock"@.len() != "docker"@.len());
}

} // verus!
