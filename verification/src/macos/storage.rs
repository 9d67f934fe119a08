//! Disk images on a macOS host.
//!
//! Images are files with an ext4 filesystem each. A VM gets a copy-on-write clone
//! of one. The host cannot mount them, so files in them are changed with the tools
//! for the filesystem.
use crate::backend::{InitConfig, VolumeHandle};
use crate::command;
use crate::command::{Cmd, Outcome};
use crate::config::{ByteSize, GlobalConfig};
use crate::deeds;
use crate::deeds::Deed;
use crate::error::{CommandOutput, Error};
use crate::paths;
use crate::plan;
use crate::plan::{Plan, Reply};
use crate::state::vm::VmMetadata;
use crate::text;
use vstd::prelude::*;

verus! {

/// Whether `e` is the image error that says `msg`.
pub open spec fn is_image(e: Error, msg: Seq<char>) -> bool {
    e matches Error::Image(s) && s@ == msg
}

/// The storage of a macOS host.
#[derive(Clone, Debug, PartialEq, Eq)]
pub struct MacosStorage {
    /// Directory that everything is kept in.
    pub state_dir: String,
}

impl MacosStorage {
    /// The storage that a configuration describes.
    pub fn new(config: &GlobalConfig) -> (r: Self)
        ensures
            r.state_dir@ == config.state_dir@,
    {
        MacosStorage { state_dir: config.state_dir.clone() }
    }

    pub open spec fn images_text(self) -> Seq<char> {
        paths::joined(paths::joined(self.state_dir@, "images"@), "data"@)
    }

    /// Directory of the images.
    pub fn images_dir(&self) -> (r: String)
        ensures
            r@ == self.images_text(),
    {
        paths::join(paths::join(self.state_dir.as_str(), "images").as_str(), "data")
    }

    pub open spec fn vms_text(self) -> Seq<char> {
        paths::joined(self.state_dir@, "vms"@)
    }

    /// Directory of the VMs.
    pub fn vms_dir(&self) -> (r: String)
        ensures
            r@ == self.vms_text(),
    {
        paths::join(self.state_dir.as_str(), "vms")
    }

    pub open spec fn vm_text(self, vm_name: Seq<char>) -> Seq<char> {
        paths::joined(self.vms_text(), vm_name)
    }

    /// Directory of a VM.
    pub fn vm_dir(&self, vm_name: &str) -> (r: String)
        ensures
            r@ == self.vm_text(vm_name@),
    {
        paths::join(self.vms_dir().as_str(), vm_name)
    }

    pub open spec fn rootfs_text(self, vm_name: Seq<char>) -> Seq<char> {
        paths::joined(self.vm_text(vm_name), "rootfs.img"@)
    }

    /// Disk of a VM.
    pub fn vm_rootfs(&self, vm_name: &str) -> (r: String)
        ensures
            r@ == self.rootfs_text(vm_name@),
    {
        paths::join(self.vm_dir(vm_name).as_str(), "rootfs.img")
    }

    pub open spec fn image_text(self, name: Seq<char>) -> Seq<char> {
        paths::joined(self.images_text(), name + ".img"@)
    }

    /// File of an image.
    pub fn image_path(&self, name: &str) -> (r: String)
        ensures
            r@ == self.image_text(name@),
    {
        paths::join(self.images_dir().as_str(), text::cat2(name, ".img").as_str())
    }

    /// The directories of a new installation.
    pub fn init(config: &InitConfig) -> (r: Vec<String>)
        ensures
            text::views(r@) == seq![
                paths::joined(paths::joined(config.state_dir@, "images"@), "data"@),
                paths::joined(config.state_dir@, "vms"@),
                paths::joined(config.state_dir@, "kernels"@),
                paths::joined(config.state_dir@, "network"@),
            ],
    {
        let d = config.state_dir.as_str();
        let mut v: Vec<String> = Vec::new();
        v.push(paths::join(paths::join(d, "images").as_str(), "data"));
        v.push(paths::join(d, "vms"));
        v.push(paths::join(d, "kernels"));
        v.push(paths::join(d, "network"));
        assert(text::views(v@) =~= seq![
            paths::joined(paths::joined(config.state_dir@, "images"@), "data"@),
            paths::joined(config.state_dir@, "vms"@),
            paths::joined(config.state_dir@, "kernels"@),
            paths::joined(config.state_dir@, "network"@),
        ]);
        v
    }

    /// The volume of an image that was moved into place.
    pub fn create_image_volume(&self, name: &str) -> (r: VolumeHandle)
        ensures
            r.disk_path@ == self.image_text(name@),
            r.thin_id is None,
    {
        VolumeHandle::from_path(self.image_path(name).as_str())
    }

    /// The volume of a VM that was cloned from an image or from another VM.
    pub fn cloned_volume(&self, vm_name: &str) -> (r: VolumeHandle)
        ensures
            r.disk_path@ == self.rootfs_text(vm_name@),
            r.thin_id is None,
    {
        VolumeHandle::from_path(self.vm_rootfs(vm_name).as_str())
    }

    /// The disk that a VM is started with.
    pub fn disk_device_path(&self, vm: &VmMetadata) -> (r: String)
        ensures
            r@ == self.rootfs_text(vm.name@),
    {
        self.vm_rootfs(vm.name.as_str())
    }

    /// The VMs whose disks need that of another one: none, clones are independent.
    pub fn storage_dependents(_vm: &VmMetadata) -> (r: Vec<String>)
        ensures
            r@.len() == 0,
    {
        Vec::new()
    }

    /// There is no pool that could grow.
    pub fn grow() -> (e: Error)
        ensures
            is_image(
                e,
                "macOS/APFS has no pool concept — resize individual VMs with `ember vm resize` instead"@,
            ),
    {
        Error::Image(
            "macOS/APFS has no pool concept — resize individual VMs with `ember vm resize` instead".to_owned(),
        )
    }

    /// Disks cannot be mounted.
    pub fn mount() -> (e: Error)
        ensures
            is_image(
                e,
                "ext4 mounting is not supported on macOS — macOS has no native ext4 filesystem support"@,
            ),
    {
        Error::Image(
            "ext4 mounting is not supported on macOS — macOS has no native ext4 filesystem support".to_owned(),
        )
    }

    /// Disks cannot be unmounted.
    pub fn unmount() -> (e: Error)
        ensures
            is_image(e, "ext4 unmounting is not supported on macOS"@),
    {
        Error::Image("ext4 unmounting is not supported on macOS".to_owned())
    }
}

/// Why a disk is missed.
#[derive(Clone, Copy, Debug, PartialEq, Eq, Structural)]
pub enum Missed {
    /// An image to clone.
    BaseImage,
    /// The disk of a VM to fork.
    SourceVm,
    /// The disk of a VM to resize.
    Vm,
}

impl Missed {
    pub open spec fn text(self) -> Seq<char> {
        match self {
            Missed::BaseImage => "base image not found: "@,
            Missed::SourceVm => "source VM rootfs not found: "@,
            Missed::Vm => "VM rootfs not found: "@,
        }
    }
}

/// See that a disk is there.
pub fn require_disk(found: bool, missed: Missed, path: &str) -> (r: Result<bool, Error>)
    ensures
        match r {
            Ok(b) => b && found,
            Err(e) => !found && is_image(e, missed.text() + path@),
        },
{
    if found {
        return Ok(true);
    }
    let what = match missed {
        Missed::BaseImage => "base image not found: ",
        Missed::SourceVm => "source VM rootfs not found: ",
        Missed::Vm => "VM rootfs not found: ",
    };
    Err(Error::Image(text::cat2(what, path)))
}

/// Taking over the file of an image: it is moved into place, or copied where it
/// cannot be moved.
#[derive(Clone, Copy, Debug, PartialEq, Eq, Structural)]
pub enum Import {
    /// Make the directory of the images.
    MakeDir,
    /// Move the file.
    Rename,
    /// Copy the file.
    Copy,
    /// Remove the file that was copied.
    RemoveSource,
    /// The image is in place.
    Done,
    /// It is not.
    Failed,
}

impl Plan for Import {
    open spec fn next(self, r: Reply) -> Self {
        match self {
            Import::MakeDir => match r {
                Reply::Error => Import::Failed,
                _ => Import::Rename,
            },
            Import::Rename => match r {
                Reply::Error => Import::Copy,
                _ => Import::Done,
            },
            Import::Copy => match r {
                Reply::Error => Import::Failed,
                _ => Import::RemoveSource,
            },
            Import::RemoveSource => Import::Done,
            Import::Done => Import::Done,
            Import::Failed => Import::Failed,
        }
    }

    open spec fn lenient(self) -> bool {
        self == Import::Rename || self == Import::RemoveSource
    }

    open spec fn ended(self) -> bool {
        self == Import::Done || self == Import::Failed
    }

    open spec fn doomed(self) -> bool {
        self == Import::Failed
    }

    open spec fn left(self) -> nat {
        match self {
            Import::MakeDir => 4,
            Import::Rename => 3,
            Import::Copy => 2,
            Import::RemoveSource => 1,
            _ => 0,
        }
    }

    fn step(self, r: Reply) -> (p: Self) {
        match self {
            Import::MakeDir => match r {
                Reply::Error => Import::Failed,
                _ => Import::Rename,
            },
            Import::Rename => match r {
                Reply::Error => Import::Copy,
                _ => Import::Done,
            },
            Import::Copy => match r {
                Reply::Error => Import::Failed,
                _ => Import::RemoveSource,
            },
            Import::RemoveSource => Import::Done,
            Import::Done => Import::Done,
            Import::Failed => Import::Failed,
        }
    }

    fn is_lenient(self) -> (b: bool) {
        match self {
            Import::Rename | Import::RemoveSource => true,
            _ => false,
        }
    }

    proof fn lemma_ends(self, r: Reply) {
    }
}

/// Cloning a disk for a VM.
#[derive(Clone, Copy, Debug, PartialEq, Eq, Structural)]
pub enum CloneDisk {
    /// See that the disk to clone is there.
    RequireSource,
    /// Make the directory of the VM.
    MakeDir,
    /// Clone the disk.
    Clone,
    /// The VM has a disk.
    Done,
    /// It has none.
    Failed,
}

impl Plan for CloneDisk {
    open spec fn next(self, r: Reply) -> Self {
        match self {
            CloneDisk::RequireSource => match r {
                Reply::Error => CloneDisk::Failed,
                _ => CloneDisk::MakeDir,
            },
            CloneDisk::MakeDir => match r {
                Reply::Error => CloneDisk::Failed,
                _ => CloneDisk::Clone,
            },
            CloneDisk::Clone => match r {
                Reply::Error => CloneDisk::Failed,
                _ => CloneDisk::Done,
            },
            CloneDisk::Done => CloneDisk::Done,
            CloneDisk::Failed => CloneDisk::Failed,
        }
    }

    open spec fn lenient(self) -> bool {
        false
    }

    open spec fn ended(self) -> bool {
        self == CloneDisk::Done || self == CloneDisk::Failed
    }

    open spec fn doomed(self) -> bool {
        self == CloneDisk::Failed
    }

    open spec fn left(self) -> nat {
        match self {
            CloneDisk::RequireSource => 3,
            CloneDisk::MakeDir => 2,
            CloneDisk::Clone => 1,
            _ => 0,
        }
    }

    fn step(self, r: Reply) -> (p: Self) {
        match self {
            CloneDisk::RequireSource => match r {
                Reply::Error => CloneDisk::Failed,
                _ => CloneDisk::MakeDir,
            },
            CloneDisk::MakeDir => match r {
                Reply::Error => CloneDisk::Failed,
                _ => CloneDisk::Clone,
            },
            CloneDisk::Clone => match r {
                Reply::Error => CloneDisk::Failed,
                _ => CloneDisk::Done,
            },
            CloneDisk::Done => CloneDisk::Done,
            CloneDisk::Failed => CloneDisk::Failed,
        }
    }

    fn is_lenient(self) -> (b: bool) {
        false
    }

    proof fn lemma_ends(self, r: Reply) {
    }
}

/// A disk is cloned only where it is there and the VM has a directory, and the VM has
/// a disk only where the clone was made.
pub proof fn law_only_a_disk_is_cloned(replies: Seq<Reply>)
    ensures
        ({
            let p = CloneDisk::RequireSource;
            let end = plan::reached(p, replies);
            &&& plan::does(p, replies, CloneDisk::MakeDir)
                ==> plan::manages(p, replies, CloneDisk::RequireSource)
            &&& plan::does(p, replies, CloneDisk::Clone)
                ==> plan::manages(p, replies, CloneDisk::MakeDir)
            &&& end == CloneDisk::Done ==> plan::manages(p, replies, CloneDisk::Clone)
        }),
{
    let p = CloneDisk::RequireSource;
    plan::lemma_way_in(
        p,
        replies,
        |x: CloneDisk| x != CloneDisk::RequireSource && x != CloneDisk::Failed,
        plan::managing(CloneDisk::RequireSource),
    );
    plan::lemma_way_in(
        p,
        replies,
        |x: CloneDisk| x == CloneDisk::Clone || x == CloneDisk::Done,
        plan::managing(CloneDisk::MakeDir),
    );
    plan::lemma_way_in(
        p,
        replies,
        |x: CloneDisk| x == CloneDisk::Done,
        plan::managing(CloneDisk::Clone),
    );
}

/// Growing the disk of a VM and the filesystem on it.
#[derive(Clone, Copy, Debug, PartialEq, Eq, Structural)]
pub enum Resize {
    /// See that the disk is there.
    RequireDisk,
    /// See that the disk would grow.
    RequireGrowth,
    /// Grow the file.
    Truncate,
    /// Check the filesystem.
    CheckFilesystem,
    /// Grow the filesystem.
    ExpandFilesystem,
    /// The disk has grown.
    Done,
    /// It may not have.
    Failed,
}

impl Plan for Resize {
    open spec fn next(self, r: Reply) -> Self {
        match self {
            Resize::RequireDisk => match r {
                Reply::Error => Resize::Failed,
                _ => Resize::RequireGrowth,
            },
            Resize::RequireGrowth => match r {
                Reply::Error => Resize::Failed,
                _ => Resize::Truncate,
            },
            Resize::Truncate => match r {
                Reply::Error => Resize::Failed,
                _ => Resize::CheckFilesystem,
            },
            Resize::CheckFilesystem => match r {
                Reply::Error => Resize::Failed,
                _ => Resize::ExpandFilesystem,
            },
            Resize::ExpandFilesystem => match r {
                Reply::Error => Resize::Failed,
                _ => Resize::Done,
            },
            Resize::Done => Resize::Done,
            Resize::Failed => Resize::Failed,
        }
    }

    open spec fn lenient(self) -> bool {
        false
    }

    open spec fn ended(self) -> bool {
        self == Resize::Done || self == Resize::Failed
    }

    open spec fn doomed(self) -> bool {
        self == Resize::Failed
    }

    open spec fn left(self) -> nat {
        match self {
            Resize::RequireDisk => 5,
            Resize::RequireGrowth => 4,
            Resize::Truncate => 3,
            Resize::CheckFilesystem => 2,
            Resize::ExpandFilesystem => 1,
            _ => 0,
        }
    }

    fn step(self, r: Reply) -> (p: Self) {
        match self {
            Resize::RequireDisk => match r {
                Reply::Error => Resize::Failed,
                _ => Resize::RequireGrowth,
            },
            Resize::RequireGrowth => match r {
                Reply::Error => Resize::Failed,
                _ => Resize::Truncate,
            },
            Resize::Truncate => match r {
                Reply::Error => Resize::Failed,
                _ => Resize::CheckFilesystem,
            },
            Resize::CheckFilesystem => match r {
                Reply::Error => Resize::Failed,
                _ => Resize::ExpandFilesystem,
            },
            Resize::ExpandFilesystem => match r {
                Reply::Error => Resize::Failed,
                _ => Resize::Done,
            },
            Resize::Done => Resize::Done,
            Resize::Failed => Resize::Failed,
        }
    }

    fn is_lenient(self) -> (b: bool) {
        false
    }

    proof fn lemma_ends(self, r: Reply) {
    }
}

/// Removing a file or a directory where it is there.
#[derive(Clone, Copy, Debug, PartialEq, Eq, Structural)]
pub enum Removal {
    /// Ask whether it is there.
    AskFound,
    /// Remove it.
    Remove,
    /// It is gone.
    Done,
    /// It is not.
    Failed,
}

impl Plan for Removal {
    open spec fn next(self, r: Reply) -> Self {
        match self {
            Removal::AskFound => match r {
                Reply::Yes => Removal::Remove,
                Reply::No => Removal::Done,
                Reply::Error => Removal::Failed,
            },
            Removal::Remove => match r {
                Reply::Error => Removal::Failed,
                _ => Removal::Done,
            },
            Removal::Done => Removal::Done,
            Removal::Failed => Removal::Failed,
        }
    }

    open spec fn lenient(self) -> bool {
        false
    }

    open spec fn ended(self) -> bool {
        self == Removal::Done || self == Removal::Failed
    }

    open spec fn doomed(self) -> bool {
        self == Removal::Failed
    }

    open spec fn left(self) -> nat {
        match self {
            Removal::AskFound => 2,
            Removal::Remove => 1,
            _ => 0,
        }
    }

    fn step(self, r: Reply) -> (p: Self) {
        match self {
            Removal::AskFound => match r {
                Reply::Yes => Removal::Remove,
                Reply::No => Removal::Done,
                Reply::Error => Removal::Failed,
            },
            Removal::Remove => match r {
                Reply::Error => Removal::Failed,
                _ => Removal::Done,
            },
            Removal::Done => Removal::Done,
            Removal::Failed => Removal::Failed,
        }
    }

    fn is_lenient(self) -> (b: bool) {
        false
    }

    proof fn lemma_ends(self, r: Reply) {
    }
}

/// What is removed was found, and it is gone only where it was not found or was
/// removed.
pub proof fn law_only_what_is_found_is_removed(replies: Seq<Reply>)
    ensures
        ({
            let p = Removal::AskFound;
            let end = plan::reached(p, replies);
            &&& plan::does(p, replies, Removal::Remove)
                ==> plan::gets(p, replies, Removal::AskFound, Reply::Yes)
            &&& end == Removal::Done
                ==> plan::gets(p, replies, Removal::AskFound, Reply::No)
                || plan::manages(p, replies, Removal::Remove)
        }),
{
    let p = Removal::AskFound;
    plan::lemma_way_in(
        p,
        replies,
        |x: Removal| x == Removal::Remove,
        plan::getting(Removal::AskFound, Reply::Yes),
    );
    plan::lemma_way_in(
        p,
        replies,
        |x: Removal| x == Removal::Done,
        plan::either(plan::getting(Removal::AskFound, Reply::No), plan::managing(Removal::Remove)),
    );
    plan::lemma_either(
        p,
        replies,
        plan::getting(Removal::AskFound, Reply::No),
        plan::managing(Removal::Remove),
    );
}

/// Giving up an installation: its disks are removed where the user wants that.
#[derive(Clone, Copy, Debug, PartialEq, Eq, Structural)]
pub enum Deinit {
    /// See whether the disks are to be removed.
    AskPurge,
    /// Ask whether there are images.
    AskImages,
    /// Remove them.
    RemoveImages,
    /// Ask whether there are VMs.
    AskVms,
    /// Remove them.
    RemoveVms,
    /// The installation is given up.
    Done,
    /// Some of it is left.
    Failed,
}

impl Plan for Deinit {
    open spec fn next(self, r: Reply) -> Self {
        match self {
            Deinit::AskPurge => match r {
                Reply::Yes => Deinit::AskImages,
                Reply::No => Deinit::Done,
                Reply::Error => Deinit::Failed,
            },
            Deinit::AskImages => match r {
                Reply::Yes => Deinit::RemoveImages,
                Reply::No => Deinit::AskVms,
                Reply::Error => Deinit::Failed,
            },
            Deinit::RemoveImages => match r {
                Reply::Error => Deinit::Failed,
                _ => Deinit::AskVms,
            },
            Deinit::AskVms => match r {
                Reply::Yes => Deinit::RemoveVms,
                Reply::No => Deinit::Done,
                Reply::Error => Deinit::Failed,
            },
            Deinit::RemoveVms => match r {
                Reply::Error => Deinit::Failed,
                _ => Deinit::Done,
            },
            Deinit::Done => Deinit::Done,
            Deinit::Failed => Deinit::Failed,
        }
    }

    open spec fn lenient(self) -> bool {
        false
    }

    open spec fn ended(self) -> bool {
        self == Deinit::Done || self == Deinit::Failed
    }

    open spec fn doomed(self) -> bool {
        self == Deinit::Failed
    }

    open spec fn left(self) -> nat {
        match self {
            Deinit::AskPurge => 5,
            Deinit::AskImages => 4,
            Deinit::RemoveImages => 3,
            Deinit::AskVms => 2,
            Deinit::RemoveVms => 1,
            _ => 0,
        }
    }

    fn step(self, r: Reply) -> (p: Self) {
        match self {
            Deinit::AskPurge => match r {
                Reply::Yes => Deinit::AskImages,
                Reply::No => Deinit::Done,
                Reply::Error => Deinit::Failed,
            },
            Deinit::AskImages => match r {
                Reply::Yes => Deinit::RemoveImages,
                Reply::No => Deinit::AskVms,
                Reply::Error => Deinit::Failed,
            },
            Deinit::RemoveImages => match r {
                Reply::Error => Deinit::Failed,
                _ => Deinit::AskVms,
            },
            Deinit::AskVms => match r {
                Reply::Yes => Deinit::RemoveVms,
                Reply::No => Deinit::Done,
                Reply::Error => Deinit::Failed,
            },
            Deinit::RemoveVms => match r {
                Reply::Error => Deinit::Failed,
                _ => Deinit::Done,
            },
            Deinit::Done => Deinit::Done,
            Deinit::Failed => Deinit::Failed,
        }
    }

    fn is_lenient(self) -> (b: bool) {
        false
    }

    proof fn lemma_ends(self, r: Reply) {
    }
}

/// Putting a public key into a disk.
#[derive(Clone, Copy, Debug, PartialEq, Eq, Structural)]
pub enum InjectKey {
    /// Ask whether the disk has the usual user.
    Stat,
    /// See whether it has.
    AskUser,
    /// Read the users of the disk.
    ReadPasswd,
    /// Find the file of the key.
    Canonicalize,
    /// Write what to do into a file.
    WriteScript,
    /// Do it.
    RunScript,
    /// See that the key is there.
    Verify,
    /// The key is in the disk.
    Done,
    /// It may not be.
    Failed,
}

impl Plan for InjectKey {
    open spec fn next(self, r: Reply) -> Self {
        match self {
            InjectKey::Stat => match r {
                Reply::Error => InjectKey::Failed,
                _ => InjectKey::AskUser,
            },
            InjectKey::AskUser => match r {
                Reply::Yes => InjectKey::ReadPasswd,
                Reply::No => InjectKey::Canonicalize,
                Reply::Error => InjectKey::Failed,
            },
            InjectKey::ReadPasswd => InjectKey::Canonicalize,
            InjectKey::Canonicalize => match r {
                Reply::Error => InjectKey::Failed,
                _ => InjectKey::WriteScript,
            },
            InjectKey::WriteScript => match r {
                Reply::Error => InjectKey::Failed,
                _ => InjectKey::RunScript,
            },
            InjectKey::RunScript => match r {
                Reply::Error => InjectKey::Failed,
                _ => InjectKey::Verify,
            },
            InjectKey::Verify => match r {
                Reply::Error => InjectKey::Failed,
                _ => InjectKey::Done,
            },
            InjectKey::Done => InjectKey::Done,
            InjectKey::Failed => InjectKey::Failed,
        }
    }

    open spec fn lenient(self) -> bool {
        self == InjectKey::ReadPasswd
    }

    open spec fn ended(self) -> bool {
        self == InjectKey::Done || self == InjectKey::Failed
    }

    open spec fn doomed(self) -> bool {
        self == InjectKey::Failed
    }

    open spec fn left(self) -> nat {
        match self {
            InjectKey::Stat => 7,
            InjectKey::AskUser => 6,
            InjectKey::ReadPasswd => 5,
            InjectKey::Canonicalize => 4,
            InjectKey::WriteScript => 3,
            InjectKey::RunScript => 2,
            InjectKey::Verify => 1,
            _ => 0,
        }
    }

    fn step(self, r: Reply) -> (p: Self) {
        match self {
            InjectKey::Stat => match r {
                Reply::Error => InjectKey::Failed,
                _ => InjectKey::AskUser,
            },
            InjectKey::AskUser => match r {
                Reply::Yes => InjectKey::ReadPasswd,
                Reply::No => InjectKey::Canonicalize,
                Reply::Error => InjectKey::Failed,
            },
            InjectKey::ReadPasswd => InjectKey::Canonicalize,
            InjectKey::Canonicalize => match r {
                Reply::Error => InjectKey::Failed,
                _ => InjectKey::WriteScript,
            },
            InjectKey::WriteScript => match r {
                Reply::Error => InjectKey::Failed,
                _ => InjectKey::RunScript,
            },
            InjectKey::RunScript => match r {
                Reply::Error => InjectKey::Failed,
                _ => InjectKey::Verify,
            },
            InjectKey::Verify => match r {
                Reply::Error => InjectKey::Failed,
                _ => InjectKey::Done,
            },
            InjectKey::Done => InjectKey::Done,
            InjectKey::Failed => InjectKey::Failed,
        }
    }

    fn is_lenient(self) -> (b: bool) {
        match self {
            InjectKey::ReadPasswd => true,
            _ => false,
        }
    }

    proof fn lemma_ends(self, r: Reply) {
    }
}

/// Putting the name of a VM into its disk.
#[derive(Clone, Copy, Debug, PartialEq, Eq, Structural)]
pub enum InjectHostname {
    /// Write the list of hosts into a file.
    WriteHosts,
    /// Write what to do into a file.
    WriteScript,
    /// Do it.
    RunScript,
    /// The name is in the disk.
    Done,
    /// It may not be.
    Failed,
}

impl Plan for InjectHostname {
    open spec fn next(self, r: Reply) -> Self {
        match self {
            InjectHostname::WriteHosts => match r {
                Reply::Error => InjectHostname::Failed,
                _ => InjectHostname::WriteScript,
            },
            InjectHostname::WriteScript => match r {
                Reply::Error => InjectHostname::Failed,
                _ => InjectHostname::RunScript,
            },
            InjectHostname::RunScript => match r {
                Reply::Error => InjectHostname::Failed,
                _ => InjectHostname::Done,
            },
            InjectHostname::Done => InjectHostname::Done,
            InjectHostname::Failed => InjectHostname::Failed,
        }
    }

    open spec fn lenient(self) -> bool {
        false
    }

    open spec fn ended(self) -> bool {
        self == InjectHostname::Done || self == InjectHostname::Failed
    }

    open spec fn doomed(self) -> bool {
        self == InjectHostname::Failed
    }

    open spec fn left(self) -> nat {
        match self {
            InjectHostname::WriteHosts => 3,
            InjectHostname::WriteScript => 2,
            InjectHostname::RunScript => 1,
            _ => 0,
        }
    }

    fn step(self, r: Reply) -> (p: Self) {
        match self {
            InjectHostname::WriteHosts => match r {
                Reply::Error => InjectHostname::Failed,
                _ => InjectHostname::WriteScript,
            },
            InjectHostname::WriteScript => match r {
                Reply::Error => InjectHostname::Failed,
                _ => InjectHostname::RunScript,
            },
            InjectHostname::RunScript => match r {
                Reply::Error => InjectHostname::Failed,
                _ => InjectHostname::Done,
            },
            InjectHostname::Done => InjectHostname::Done,
            InjectHostname::Failed => InjectHostname::Failed,
        }
    }

    fn is_lenient(self) -> (b: bool) {
        false
    }

    proof fn lemma_ends(self, r: Reply) {
    }
}

/// The script runs only once the list of hosts and the script are written, and the
/// name is in the disk only where it ran.
pub proof fn law_script_runs_when_written(replies: Seq<Reply>)
    ensures
        ({
            let p = InjectHostname::WriteHosts;
            let end = plan::reached(p, replies);
            &&& plan::does(p, replies, InjectHostname::WriteScript)
                || plan::does(p, replies, InjectHostname::RunScript)
                ==> plan::manages(p, replies, InjectHostname::WriteHosts)
            &&& plan::does(p, replies, InjectHostname::RunScript)
                ==> plan::manages(p, replies, InjectHostname::WriteScript)
            &&& end == InjectHostname::Done ==> plan::manages(p, replies, InjectHostname::RunScript)
        }),
{
    let p = InjectHostname::WriteHosts;
    plan::lemma_way_in(
        p,
        replies,
        |x: InjectHostname| x != InjectHostname::WriteHosts && x != InjectHostname::Failed,
        plan::managing(InjectHostname::WriteHosts),
    );
    plan::lemma_way_in(
        p,
        replies,
        |x: InjectHostname| x == InjectHostname::RunScript || x == InjectHostname::Done,
        plan::managing(InjectHostname::WriteScript),
    );
    plan::lemma_way_in(
        p,
        replies,
        |x: InjectHostname| x == InjectHostname::Done,
        plan::managing(InjectHostname::RunScript),
    );
}

/// A disk is changed only where it is there and would grow, and the filesystem is
/// checked between the two changes.
pub proof fn law_resize_only_grows(replies: Seq<Reply>)
    ensures
        ({
            let p = Resize::RequireDisk;
            let end = plan::reached(p, replies);
            &&& plan::does(p, replies, Resize::Truncate)
                ==> plan::manages(p, replies, Resize::RequireDisk)
            &&& plan::does(p, replies, Resize::Truncate)
                ==> plan::manages(p, replies, Resize::RequireGrowth)
            &&& plan::does(p, replies, Resize::CheckFilesystem)
                ==> plan::manages(p, replies, Resize::Truncate)
            &&& plan::does(p, replies, Resize::ExpandFilesystem)
                ==> plan::manages(p, replies, Resize::CheckFilesystem)
            &&& end == Resize::Done ==> plan::manages(p, replies, Resize::ExpandFilesystem)
        }),
{
    let p = Resize::RequireDisk;
    plan::lemma_way_in(
        p,
        replies,
        |x: Resize| x != Resize::RequireDisk && x != Resize::Failed,
        plan::managing(Resize::RequireDisk),
    );
    plan::lemma_way_in(
        p,
        replies,
        |x: Resize|
            x != Resize::RequireDisk && x != Resize::RequireGrowth && x != Resize::Failed,
        plan::managing(Resize::RequireGrowth),
    );
    plan::lemma_way_in(
        p,
        replies,
        |x: Resize|
            x == Resize::CheckFilesystem || x == Resize::ExpandFilesystem
                || x == Resize::Done,
        plan::managing(Resize::Truncate),
    );
    plan::lemma_way_in(
        p,
        replies,
        |x: Resize| x == Resize::ExpandFilesystem || x == Resize::Done,
        plan::managing(Resize::CheckFilesystem),
    );
    plan::lemma_way_in(
        p,
        replies,
        |x: Resize| x == Resize::Done,
        plan::managing(Resize::ExpandFilesystem),
    );
}

/// The file of an image is removed only after it was copied, and it is imported only
/// where it was moved or copied. A failed move is no failure where the copy works.
pub proof fn law_import_loses_nothing(replies: Seq<Reply>)
    ensures
        ({
            let p = Import::MakeDir;
            let end = plan::reached(p, replies);
            &&& plan::does(p, replies, Import::RemoveSource)
                ==> plan::manages(p, replies, Import::Copy)
            &&& end == Import::Done
                ==> plan::manages(p, replies, Import::Rename)
                || plan::manages(p, replies, Import::Copy)
            &&& end == Import::Failed
                ==> plan::gets(p, replies, Import::MakeDir, Reply::Error)
                || plan::gets(p, replies, Import::Copy, Reply::Error)
        }),
{
    let p = Import::MakeDir;
    plan::lemma_way_in(
        p,
        replies,
        |x: Import| x == Import::RemoveSource,
        plan::managing(Import::Copy),
    );
    plan::lemma_way_in(
        p,
        replies,
        |x: Import| x == Import::RemoveSource || x == Import::Done,
        plan::either(plan::managing(Import::Rename), plan::managing(Import::Copy)),
    );
    plan::lemma_either(p, replies, plan::managing(Import::Rename), plan::managing(Import::Copy));
    plan::lemma_way_in(
        p,
        replies,
        |x: Import| x == Import::Failed,
        plan::either(plan::getting(Import::MakeDir, Reply::Error), plan::getting(Import::Copy, Reply::Error)),
    );
    plan::lemma_either(
        p,
        replies,
        plan::getting(Import::MakeDir, Reply::Error),
        plan::getting(Import::Copy, Reply::Error),
    );
}

/// Disks are removed only where the user wants that, and only those that are there.
pub proof fn law_disks_stay_without_purge(replies: Seq<Reply>)
    ensures
        ({
            let p = Deinit::AskPurge;
            let end = plan::reached(p, replies);
            &&& plan::does(p, replies, Deinit::RemoveImages)
                || plan::does(p, replies, Deinit::RemoveVms)
                ==> plan::gets(p, replies, Deinit::AskPurge, Reply::Yes)
            &&& plan::does(p, replies, Deinit::RemoveImages)
                ==> plan::gets(p, replies, Deinit::AskImages, Reply::Yes)
            &&& plan::does(p, replies, Deinit::RemoveVms)
                ==> plan::gets(p, replies, Deinit::AskVms, Reply::Yes)
        }),
{
    let p = Deinit::AskPurge;
    plan::lemma_way_in(
        p,
        replies,
        |x: Deinit|
            x == Deinit::AskImages || x == Deinit::RemoveImages || x == Deinit::AskVms
                || x == Deinit::RemoveVms,
        plan::getting(Deinit::AskPurge, Reply::Yes),
    );
    plan::lemma_way_in(
        p,
        replies,
        |x: Deinit| x == Deinit::RemoveImages,
        plan::getting(Deinit::AskImages, Reply::Yes),
    );
    plan::lemma_way_in(
        p,
        replies,
        |x: Deinit| x == Deinit::RemoveVms,
        plan::getting(Deinit::AskVms, Reply::Yes),
    );
}

/// A key counts as injected only once the script ran and the key was seen in the
/// disk. The list of users is read only where there is the usual one.
pub proof fn law_key_is_verified(replies: Seq<Reply>)
    ensures
        ({
            let p = InjectKey::Stat;
            let end = plan::reached(p, replies);
            &&& end == InjectKey::Done ==> plan::manages(p, replies, InjectKey::RunScript)
            &&& end == InjectKey::Done ==> plan::manages(p, replies, InjectKey::Verify)
            &&& plan::does(p, replies, InjectKey::ReadPasswd)
                ==> plan::gets(p, replies, InjectKey::AskUser, Reply::Yes)
        }),
{
    let p = InjectKey::Stat;
    plan::lemma_way_in(
        p,
        replies,
        |x: InjectKey| x == InjectKey::Verify || x == InjectKey::Done,
        plan::managing(InjectKey::RunScript),
    );
    plan::lemma_way_in(
        p,
        replies,
        |x: InjectKey| x == InjectKey::Done,
        plan::managing(InjectKey::Verify),
    );
    plan::lemma_way_in(
        p,
        replies,
        |x: InjectKey| x == InjectKey::ReadPasswd,
        plan::getting(InjectKey::AskUser, Reply::Yes),
    );
}

/// See that a disk would grow.
pub fn require_growth(current: u64, new_size: ByteSize) -> (r: Result<bool, Error>)
    ensures
        match r {
            Ok(b) => b && new_size.count > current,
            Err(e) => new_size.count <= current && is_image(
                e,
                "cannot shrink disk from "@ + text::dec(current as nat) + " to "@ + text::dec(
                    new_size.count as nat,
                ) + " bytes"@,
            ),
        },
{
    if new_size.bytes() <= current {
        return Err(
            Error::Image(
                text::cat5(
                    "cannot shrink disk from ",
                    text::dec_u64(current).as_str(),
                    " to ",
                    text::dec_u64(new_size.bytes()).as_str(),
                    " bytes",
                ),
            ),
        );
    }
    Ok(true)
}

/// The command that grows the file of a disk.
pub fn truncate(new_size: ByteSize, rootfs: &str) -> (r: Cmd)
    ensures
        r@ == command::cmd("truncate"@, seq!["-s"@, text::dec(new_size.count as nat), rootfs@], "truncate"@, "truncate"@),
        deeds::truncate(r@) == Some(Deed::Lengthen { length: text::dec(new_size.count as nat), file: rootfs@ }),
{
    let size = text::dec_u64(new_size.bytes());
    let r = command::command("truncate", &["-s", size.as_str(), rootfs], "truncate", "truncate");
    assert(r@.args =~= seq!["-s"@, text::dec(new_size.count as nat), rootfs@]);
    r
}

/// The command that checks the filesystem of a disk and repairs it.
pub fn check_filesystem(e2fsck: &str, rootfs: &str) -> (r: Cmd)
    ensures
        r@ == command::cmd(e2fsck@, seq!["-f"@, "-y"@, rootfs@], "e2fsck"@, "e2fsck"@),
        deeds::fsck(r@) == Some(Deed::Mend { device: rootfs@ }),
{
    proof {
        deeds::lemma_fsck();
    }
    let r = command::command(e2fsck, &["-f", "-y", rootfs], "e2fsck", "e2fsck");
    assert(r@.args =~= seq!["-f"@, "-y"@, rootfs@]);
    r
}

/// Whether a filesystem is fit for use after the check. The exit code is a set of
/// bits: the lowest says that errors were corrected, the others that something is
/// wrong.
pub fn filesystem_checked(c: &Cmd, o: Outcome) -> (r: Result<bool, Error>)
    ensures
        match o {
            Outcome::Exited(out) => if out.code_or_minus_one() >= 2 {
                r is Err && command::is_error_of(r->Err_0, c@, o)
            } else {
                r == Ok::<bool, Error>(true)
            },
            Outcome::NotSpawned(_) => r is Err && command::is_error_of(r->Err_0, c@, o),
        },
{
    if let Outcome::Exited(out) = &o {
        let code: i32 = match out.exit_code {
            Some(code) => code,
            None => -1,
        };
        if code < 2 {
            return Ok(true);
        }
    }
    match command::finish(c, o) {
        Ok(_) => Ok(true),
        Err(e) => Err(e),
    }
}

/// The command that grows the filesystem of a disk to all of it.
pub fn expand_filesystem(resize2fs: &str, rootfs: &str) -> (r: Cmd)
    ensures
        r@ == command::cmd(resize2fs@, seq![rootfs@], "resize2fs"@, "resize2fs"@),
        deeds::resize2fs(r@) == Some(Deed::Fill { device: rootfs@ }),
{
    let r = command::command(resize2fs, &[rootfs], "resize2fs", "resize2fs");
    assert(r@.args =~= seq![rootfs@]);
    r
}

/// The command that makes a copy-on-write clone of a disk.
pub fn clone_command(src: &str, dest: &str) -> (r: Cmd)
    ensures
        r@ == command::cmd("cp"@, seq!["-c"@, src@, dest@], "cp -c"@, "cp -c"@),
        deeds::cp(r@) == Some(Deed::CloneFile { source: src@, target: dest@ }),
{
    proof {
        deeds::lemma_cp();
    }
    let r = command::command("cp", &["-c", src, dest], "cp -c", "cp -c");
    assert(r@.args =~= seq!["-c"@, src@, dest@]);
    r
}

/// Why a clone failed.
pub open spec fn clone_failed_text(src: Seq<char>, dest: Seq<char>, stderr: Seq<char>) -> Seq<char> {
    if text::contains_text(stderr, "Cross-device link"@) || text::contains_text(
        stderr,
        "Not supported"@,
    ) {
        "APFS clone failed: "@ + text::trim(stderr)
            + ". VM storage must be on an APFS volume. The state directory may be on a non-APFS filesystem or the source and destination are on different volumes."@
    } else {
        "cp -c "@ + src + " → "@ + dest + " failed: "@ + text::trim(stderr)
    }
}

/// Whether a disk was cloned, from how the command ended.
pub fn apfs_clone(c: &Cmd, src: &str, dest: &str, o: Outcome) -> (r: Result<bool, Error>)
    ensures
        match o {
            Outcome::NotSpawned(_) => r is Err && command::is_error_of(r->Err_0, c@, o),
            Outcome::Exited(out) => if out.success() {
                r == Ok::<bool, Error>(true)
            } else {
                r is Err && is_image(
                    r->Err_0,
                    clone_failed_text(src@, dest@, text::utf8_lossy(out.stderr@)),
                )
            },
        },
{
    match o {
        Outcome::NotSpawned(why) => Err(
            Error::CommandExec { command: c.spawn_label.clone(), source: why },
        ),
        Outcome::Exited(out) => {
            if out.succeeded() {
                return Ok(true);
            }
            let stderr = text::from_utf8_lossy(&out.stderr);
            let said = text::trimmed(stderr.as_str());
            let msg = if text::contains(stderr.as_str(), "Cross-device link") || text::contains(
                stderr.as_str(),
                "Not supported",
            ) {
                text::cat3(
                    "APFS clone failed: ",
                    said.as_str(),
                    ". VM storage must be on an APFS volume. The state directory may be on a non-APFS filesystem or the source and destination are on different volumes.",
                )
            } else {
                text::cat6("cp -c ", src, " → ", dest, " failed: ", said.as_str())
            };
            Err(Error::Image(msg))
        },
    }
}

/// What to tell the user of a clone that took whole seconds; `shown` is the time to
/// show. A clone takes no time however large the disk is, a copy does.
pub fn clone_warning(elapsed_secs: u64, shown: &str) -> (r: Option<String>)
    ensures
        match r {
            Some(w) => elapsed_secs >= 1 && w@ == "Warning: disk clone took "@ + shown@
                + "s — this may indicate copy-on-write is not working. Run `ember debug storage-efficiency` to check."@,
            None => elapsed_secs < 1,
        },
{
    if elapsed_secs >= 1 {
        Some(
            text::cat3(
                "Warning: disk clone took ",
                shown,
                "s — this may indicate copy-on-write is not working. Run `ember debug storage-efficiency` to check.",
            ),
        )
    } else {
        None
    }
}

/// Where the tool is on a host of the newer kind.
pub fn arm_tool_path(name: &str) -> (r: String)
    ensures
        r@ == "/opt/homebrew/opt/e2fsprogs/sbin/"@ + name@,
{
    text::cat2("/opt/homebrew/opt/e2fsprogs/sbin/", name)
}

/// Where the tool is on a host of the older kind.
pub fn intel_tool_path(name: &str) -> (r: String)
    ensures
        r@ == "/usr/local/opt/e2fsprogs/sbin/"@ + name@,
{
    text::cat2("/usr/local/opt/e2fsprogs/sbin/", name)
}

/// The tool to use, given which of the two paths are there: the first that is,
/// else whatever the search path gives.
pub fn find_e2fsprogs_tool(name: &str, arm_found: bool, intel_found: bool) -> (r: String)
    ensures
        r@ == (if arm_found {
            "/opt/homebrew/opt/e2fsprogs/sbin/"@ + name@
        } else if intel_found {
            "/usr/local/opt/e2fsprogs/sbin/"@ + name@
        } else {
            name@
        }),
{
    if arm_found {
        arm_tool_path(name)
    } else if intel_found {
        intel_tool_path(name)
    } else {
        name.to_owned()
    }
}

/// The pair of numbers that two fields hold.
pub open spec fn id_pair(uid: Seq<char>, gid: Seq<char>) -> Option<(u32, u32)> {
    match (text::parse_uint(uid, u32::MAX as nat), text::parse_uint(gid, u32::MAX as nat)) {
        (Ok(u), Ok(g)) => Some((u as u32, g as u32)),
        _ => None,
    }
}

fn parse_pair(uid: &str, gid: &str) -> (r: Option<(u32, u32)>)
    ensures
        r == id_pair(uid@, gid@),
{
    proof {
        text::lemma_parse_bound(uid@, u32::MAX as nat);
        text::lemma_parse_bound(gid@, u32::MAX as nat);
    }
    match (
        text::parse_uint_str(uid, u32::MAX as u64),
        text::parse_uint_str(gid, u32::MAX as u64),
    ) {
        (Ok(u), Ok(g)) => Some((u as u32, g as u32)),
        _ => None,
    }
}

/// Whether a line of a list of users is about `user`.
pub open spec fn is_entry_of(line: Seq<char>, user: Seq<char>) -> bool {
    let f = text::split_char(line, ':');
    f.len() >= 4 && f[0] == user
}

/// The user and group numbers of a user, from the first line about them.
pub open spec fn passwd_ids(lines: Seq<Seq<char>>, user: Seq<char>) -> Option<(u32, u32)>
    decreases lines.len(),
{
    if lines.len() == 0 {
        None
    } else if is_entry_of(lines[0], user) {
        let f = text::split_char(lines[0], ':');
        id_pair(f[2], f[3])
    } else {
        passwd_ids(lines.skip(1), user)
    }
}

/// The user and group numbers of a user, from the list of users of a disk.
pub fn read_passwd_uid_gid(passwd: &str, username: &str) -> (r: Option<(u32, u32)>)
    ensures
        r == passwd_ids(text::lines(passwd@), username@),
{
    let lines = text::split_lines(passwd);
    let ghost v = text::views(lines@);
    let mut i: usize = 0;
    assert(v.skip(0) =~= v);
    while i < lines.len()
        invariant
            i <= lines.len(),
            v == text::views(lines@),
            v == text::lines(passwd@),
            passwd_ids(v.skip(i as int), username@) == passwd_ids(v, username@),
        decreases lines.len() - i,
    {
        let fields = text::split(lines[i].as_str(), ':');
        proof {
            assert(v.skip(i as int)[0] == lines@[i as int]@);
            assert(v.skip(i as int).skip(1) =~= v.skip(i + 1));
            assert(text::views(fields@).len() == fields.len());
            assert forall|k: int| 0 <= k < fields.len() implies text::views(fields@)[k]
                == #[trigger] fields@[k]@ by {}
        }
        if fields.len() >= 4 && text::same(fields[0].as_str(), username) {
            return parse_pair(fields[2].as_str(), fields[3].as_str());
        }
        i += 1;
    }
    assert(v.skip(v.len() as int) =~= Seq::<Seq<char>>::empty());
    None
}

/// The owner that a line names: `User: <uid> Group: <gid> ..`.
pub open spec fn owner_words(line: Seq<char>) -> Option<Seq<Seq<char>>> {
    match text::without_prefix(text::trim(line), "User:"@) {
        Some(rest) => {
            let w = text::words(rest);
            if w.len() >= 3 && w[1] == "Group:"@ {
                Some(w)
            } else {
                None
            }
        },
        None => None,
    }
}

/// The user and group numbers on the first line that names an owner.
pub open spec fn owner_ids(lines: Seq<Seq<char>>) -> Option<(u32, u32)>
    decreases lines.len(),
{
    if lines.len() == 0 {
        None
    } else {
        match owner_words(lines[0]) {
            Some(w) => id_pair(w[0], w[2]),
            None => owner_ids(lines.skip(1)),
        }
    }
}

/// The owner of a file in a disk, from what the tool says about the file.
pub fn parse_debugfs_uid_gid(stat_output: &str) -> (r: Option<(u32, u32)>)
    ensures
        r == owner_ids(text::lines(stat_output@)),
{
    let lines = text::split_lines(stat_output);
    let ghost v = text::views(lines@);
    let mut i: usize = 0;
    assert(v.skip(0) =~= v);
    while i < lines.len()
        invariant
            i <= lines.len(),
            v == text::views(lines@),
            v == text::lines(stat_output@),
            owner_ids(v.skip(i as int)) == owner_ids(v),
        decreases lines.len() - i,
    {
        let line = text::trimmed(lines[i].as_str());
        proof {
            assert(v.skip(i as int)[0] == lines@[i as int]@);
            assert(v.skip(i as int).skip(1) =~= v.skip(i + 1));
        }
        if let Some(rest) = text::strip_prefix(line.as_str(), "User:") {
            let w = text::split_words(rest.as_str());
            proof {
                assert(text::views(w@).len() == w.len());
                assert forall|k: int| 0 <= k < w.len() implies text::views(w@)[k]
                    == #[trigger] w@[k]@ by {}
            }
            if w.len() >= 3 && text::same(w[1].as_str(), "Group:") {
                return parse_pair(w[0].as_str(), w[2].as_str());
            }
        }
        i += 1;
    }
    assert(v.skip(v.len() as int) =~= Seq::<Seq<char>>::empty());
    None
}

/// The user who gets a key.
#[derive(Clone, Copy, Debug, PartialEq, Eq)]
pub struct KeyOwner {
    pub user: &'static str,
    pub home: &'static str,
    pub uid: u32,
    pub gid: u32,
}

/// The command that asks whether a disk has the usual user.
pub fn stat_home(debugfs: &str, image: &str) -> (r: Cmd)
    ensures
        r@ == command::cmd(debugfs@, seq!["-R"@, "stat /home/ubuntu"@, image@], "debugfs stat"@, "debugfs stat"@),
        deeds::debugfs(r@) == Some(Deed::Ask { request: "stat /home/ubuntu"@, image: image@ }),
{
    proof {
        deeds::lemma_debugfs();
    }
    let r = command::command(debugfs, &["-R", "stat /home/ubuntu", image], "debugfs stat", "debugfs stat");
    assert(r@.args =~= seq!["-R"@, "stat /home/ubuntu"@, image@]);
    r
}

/// The command that prints the users of a disk.
pub fn read_users(debugfs: &str, image: &str) -> (r: Cmd)
    ensures
        r@ == command::cmd(debugfs@, seq!["-R"@, "cat /etc/passwd"@, image@], "debugfs"@, "debugfs"@),
        deeds::debugfs(r@) == Some(Deed::Ask { request: "cat /etc/passwd"@, image: image@ }),
{
    proof {
        deeds::lemma_debugfs();
    }
    let r = command::command(debugfs, &["-R", "cat /etc/passwd", image], "debugfs", "debugfs");
    assert(r@.args =~= seq!["-R"@, "cat /etc/passwd"@, image@]);
    r
}

/// Whether a disk has the usual user, from what the tool complains of.
pub fn has_ubuntu(stat: &CommandOutput) -> (r: bool)
    ensures
        r == !text::contains_text(text::utf8_lossy(stat.stderr@), "File not found"@),
{
    !text::contains(text::from_utf8_lossy(&stat.stderr).as_str(), "File not found")
}

/// The numbers of the usual user: from the list of users where it was read, else
/// from the owner of the home directory, else the usual ones.
pub open spec fn ubuntu_ids(stat_stdout: Seq<u8>, passwd: Option<Seq<u8>>) -> (u32, u32) {
    let listed = match passwd {
        Some(b) => passwd_ids(text::lines(text::utf8_lossy(b)), "ubuntu"@),
        None => None,
    };
    match listed {
        Some(ids) => ids,
        None => match owner_ids(text::lines(text::utf8_lossy(stat_stdout))) {
            Some(ids) => ids,
            None => (1000, 1000),
        },
    }
}

/// The user who gets the key: the usual user where the disk has them, else root.
/// `passwd` is the list of users, where it could be read.
pub fn key_owner(stat: &CommandOutput, passwd: &Option<Vec<u8>>) -> (r: KeyOwner)
    ensures
        if text::contains_text(text::utf8_lossy(stat.stderr@), "File not found"@) {
            r.user@ == "root"@ && r.home@ == "/root"@ && r.uid == 0 && r.gid == 0
        } else {
            r.user@ == "ubuntu"@ && r.home@ == "/home/ubuntu"@ && (r.uid, r.gid) == ubuntu_ids(
                stat.stdout@,
                match *passwd {
                    Some(b) => Some(b@),
                    None => None,
                },
            )
        },
{
    if !has_ubuntu(stat) {
        return KeyOwner { user: "root", home: "/root", uid: 0, gid: 0 };
    }
    let listed = match passwd {
        Some(b) => read_passwd_uid_gid(text::from_utf8_lossy(b).as_str(), "ubuntu"),
        None => None,
    };
    let (uid, gid) = match listed {
        Some(ids) => ids,
        None => match parse_debugfs_uid_gid(text::from_utf8_lossy(&stat.stdout).as_str()) {
            Some(ids) => ids,
            None => (1000, 1000),
        },
    };
    KeyOwner { user: "ubuntu", home: "/home/ubuntu", uid, gid }
}

/// The file that keys are in.
pub open spec fn keys_text(home: Seq<char>) -> Seq<char> {
    home + "/.ssh/authorized_keys"@
}

/// The file that keys are in.
pub fn keys_path(home: &str) -> (r: String)
    ensures
        r@ == keys_text(home@),
{
    text::cat2(home, "/.ssh/authorized_keys")
}

/// One line of a script: a field of a file is set.
pub open spec fn set_field(path: Seq<char>, field: Seq<char>, value: Seq<char>) -> Seq<char> {
    "set_inode_field "@ + path + " "@ + field + " "@ + value + "\n"@
}

fn set_field_line(path: &str, field: &str, value: &str) -> (r: String)
    ensures
        r@ == set_field(path@, field@, value@),
{
    text::cat7("set_inode_field ", path, " ", field, " ", value, "\n")
}

/// What puts a key into a disk: the directory and the file are made, and both are
/// given to their owner, for no one else to see.
pub open spec fn key_script_text(home: Seq<char>, uid: u32, gid: u32, pubkey: Seq<char>) -> Seq<char> {
    let dir = home + "/.ssh"@;
    let file = keys_text(home);
    "mkdir "@ + dir + "\n"@ + "write "@ + pubkey + " "@ + file + "\n"@ + set_field(
        dir,
        "mode"@,
        "040700"@,
    ) + set_field(dir, "uid"@, text::dec(uid as nat)) + set_field(
        dir,
        "gid"@,
        text::dec(gid as nat),
    ) + set_field(file, "mode"@, "0100600"@) + set_field(
        file,
        "uid"@,
        text::dec(uid as nat),
    ) + set_field(file, "gid"@, text::dec(gid as nat))
}

/// What puts a key into a disk.
pub fn key_script(owner: &KeyOwner, pubkey: &str) -> (r: String)
    ensures
        r@ == key_script_text(owner.home@, owner.uid, owner.gid, pubkey@),
{
    let dir = text::cat2(owner.home, "/.ssh");
    let file = keys_path(owner.home);
    let uid = text::dec_u64(owner.uid as u64);
    let gid = text::dec_u64(owner.gid as u64);
    let mut s = text::cat8(
        "mkdir ",
        dir.as_str(),
        "\n",
        "write ",
        pubkey,
        " ",
        file.as_str(),
        "\n",
    );
    s.append(set_field_line(dir.as_str(), "mode", "040700").as_str());
    s.append(set_field_line(dir.as_str(), "uid", uid.as_str()).as_str());
    s.append(set_field_line(dir.as_str(), "gid", gid.as_str()).as_str());
    s.append(set_field_line(file.as_str(), "mode", "0100600").as_str());
    s.append(set_field_line(file.as_str(), "uid", uid.as_str()).as_str());
    s.append(set_field_line(file.as_str(), "gid", gid.as_str()).as_str());
    s
}

/// The command that changes a disk as the file `script` says.
pub fn run_script(debugfs: &str, script: &str, image: &str, label: &str) -> (r: Cmd)
    ensures
        r@ == command::cmd(debugfs@, seq!["-w"@, "-f"@, script@, image@], label@, label@),
        deeds::debugfs(r@) == Some(Deed::Edit { script: script@, image: image@ }),
{
    proof {
        deeds::lemma_debugfs();
    }
    let r = command::command(debugfs, &["-w", "-f", script, image], label, label);
    assert(r@.args =~= seq!["-w"@, "-f"@, script@, image@]);
    r
}

/// Whether a key script ran, from how the command ended; `status` is how its end
/// reads.
pub fn key_script_ran(c: &Cmd, o: &Outcome, status: &str) -> (r: Result<bool, Error>)
    ensures
        match *o {
            Outcome::NotSpawned(_) => r is Err && command::is_error_of(r->Err_0, c@, *o),
            Outcome::Exited(out) => if out.success() {
                r == Ok::<bool, Error>(true)
            } else {
                r is Err && is_image(
                    r->Err_0,
                    "debugfs exited with "@ + status@ + ": "@ + text::utf8_lossy(out.stderr@),
                )
            },
        },
{
    match o {
        Outcome::NotSpawned(why) => Err(
            Error::CommandExec { command: c.spawn_label.clone(), source: why.clone() },
        ),
        Outcome::Exited(out) => {
            if out.succeeded() {
                return Ok(true);
            }
            let stderr = text::from_utf8_lossy(&out.stderr);
            Err(Error::Image(text::cat4("debugfs exited with ", status, ": ", stderr.as_str())))
        },
    }
}

/// The command that asks whether the key is in a disk.
pub fn verify_key(debugfs: &str, home: &str, image: &str) -> (r: Cmd)
    ensures
        r@ == command::cmd(debugfs@, seq!["-R"@, "stat "@ + keys_text(home@), image@], "debugfs verify"@, "debugfs verify"@),
        deeds::debugfs(r@) == Some(Deed::Ask { request: "stat "@ + (home@ + "/.ssh/authorized_keys"@), image: image@ }),
{
    proof {
        deeds::lemma_debugfs();
    }
    let stat = text::cat2("stat ", keys_path(home).as_str());
    let r = command::command(debugfs, &["-R", stat.as_str(), image], "debugfs verify", "debugfs verify");
    assert(r@.args =~= seq!["-R"@, "stat "@ + keys_text(home@), image@]);
    r
}

/// Whether the key is in a disk, from how the two commands ended.
pub fn key_verified(c: &Cmd, o: &Outcome, written: &CommandOutput) -> (r: Result<bool, Error>)
    ensures
        match *o {
            Outcome::NotSpawned(_) => r is Err && command::is_error_of(r->Err_0, c@, *o),
            Outcome::Exited(out) => if text::contains_text(
                text::utf8_lossy(out.stderr@),
                "File not found"@,
            ) {
                r is Err && is_image(
                    r->Err_0,
                    "debugfs SSH key injection failed — authorized_keys not found after write.\ndebugfs stderr: "@
                        + text::utf8_lossy(written.stderr@),
                )
            } else {
                r == Ok::<bool, Error>(true)
            },
        },
{
    match o {
        Outcome::NotSpawned(why) => Err(
            Error::CommandExec { command: c.spawn_label.clone(), source: why.clone() },
        ),
        Outcome::Exited(out) => {
            if text::contains(text::from_utf8_lossy(&out.stderr).as_str(), "File not found") {
                let said = text::from_utf8_lossy(&written.stderr);
                return Err(
                    Error::Image(
                        text::cat2(
                            "debugfs SSH key injection failed — authorized_keys not found after write.\ndebugfs stderr: ",
                            said.as_str(),
                        ),
                    ),
                );
            }
            Ok(true)
        },
    }
}

/// The list of hosts of a VM: itself, under its own name.
pub fn hosts_content(hostname: &str) -> (r: String)
    ensures
        r@ == "127.0.0.1\tlocalhost "@ + hostname@
            + "\n::1\t\tlocalhost ip6-localhost ip6-loopback "@ + hostname@ + "\n"@,
{
    text::cat5(
        "127.0.0.1\tlocalhost ",
        hostname,
        "\n::1\t\tlocalhost ip6-localhost ip6-loopback ",
        hostname,
        "\n",
    )
}

/// What puts a list of hosts into a disk in place of the one that is there.
pub fn hosts_script(hosts_file: &str) -> (r: String)
    ensures
        r@ == "rm /etc/hosts\nwrite "@ + hosts_file@ + " /etc/hosts\n"@,
{
    text::cat3("rm /etc/hosts\nwrite ", hosts_file, " /etc/hosts\n")
}

/// Whether a hosts script ran, from how the command ended; `status` is how its end
/// reads.
pub fn hosts_script_ran(c: &Cmd, o: &Outcome, status: &str) -> (r: Result<bool, Error>)
    ensures
        match *o {
            Outcome::NotSpawned(_) => r is Err && command::is_error_of(r->Err_0, c@, *o),
            Outcome::Exited(out) => if out.success() {
                r == Ok::<bool, Error>(true)
            } else {
                r is Err && is_image(
                    r->Err_0,
                    "debugfs /etc/hosts injection exited with "@ + status@ + ": "@ + text::utf8_lossy(
                        out.stderr@,
                    ),
                )
            },
        },
{
    match o {
        Outcome::NotSpawned(why) => Err(
            Error::CommandExec { command: c.spawn_label.clone(), source: why.clone() },
        ),
        Outcome::Exited(out) => {
            if out.succeeded() {
                return Ok(true);
            }
            let stderr = text::from_utf8_lossy(&out.stderr);
            Err(
                Error::Image(
                    text::cat4(
                        "debugfs /etc/hosts injection exited with ",
                        status,
                        ": ",
                        stderr.as_str(),
                    ),
                ),
            )
        },
    }
}

/// The command that describes the volume that a path is on.
pub fn volume_info(path: &str) -> (r: Cmd)
    ensures
        r@ == command::cmd("diskutil"@, seq!["info"@, "-plist"@, path@], "diskutil"@, "diskutil"@),
        deeds::diskutil(r@) == Some(Deed::ShowVolume { path: path@ }),
{
    proof {
        deeds::lemma_diskutil();
    }
    let r = command::command("diskutil", &["info", "-plist", path], "diskutil", "diskutil");
    assert(r@.args =~= seq!["info"@, "-plist"@, path@]);
    r
}

/// The value after a key of a property list: between the first `<string>` and the
/// first `</string>` that follow.
pub open spec fn value_span(after: Seq<char>) -> Option<(int, int)> {
    match (text::position(after, "<string>"@), text::position(after, "</string>"@)) {
        (Some(a), Some(b)) => Some((a + 8, b)),
        _ => None,
    }
}

/// What follows the key of the filesystem in a property list, with the key.
pub open spec fn after_key(plist: Seq<char>) -> Option<Seq<char>> {
    match text::position(plist, "<key>FilesystemType</key>"@) {
        Some(k) => Some(plist.skip(k)),
        None => None,
    }
}

/// Whether the value in a property list ends after it starts.
pub open spec fn value_in_order(plist: Seq<char>) -> bool {
    match after_key(plist) {
        Some(after) => match value_span(after) {
            Some((a, b)) => a <= b,
            None => true,
        },
        None => true,
    }
}

/// The filesystem that a property list names, where it names one.
pub open spec fn filesystem_type(plist: Seq<char>) -> Option<Seq<char>> {
    match after_key(plist) {
        Some(after) => match value_span(after) {
            Some((a, b)) => Some(text::lowercase(text::trim(after.subrange(a, b)))),
            None => None,
        },
        None => None,
    }
}

fn find_value(plist: &str) -> (r: Option<(Vec<char>, usize, usize)>)
    ensures
        match r {
            Some((after, a, b)) => after_key(plist@) == Some(after@) && value_span(after@) == Some(
                (a as int, b as int),
            ) && a <= after.len() && b <= after.len(),
            None => after_key(plist@) is None || value_span(after_key(plist@)->0) is None,
        },
{
    let all = text::to_chars(plist);
    let k: usize = match text::find_chars(&all, "<key>FilesystemType</key>") {
        Some(k) => k,
        None => return None,
    };
    let tail = text::from_chars(vstd::slice::slice_subrange(all.as_slice(), k, all.len()));
    let rest = text::to_chars(tail.as_str());
    assert(rest@ =~= plist@.skip(k as int));
    let a: usize = match text::find_chars(&rest, "<string>") {
        Some(a) => a,
        None => return None,
    };
    let b: usize = match text::find_chars(&rest, "</string>") {
        Some(b) => b,
        None => return None,
    };
    proof {
        reveal_strlit("<string>");
        reveal_strlit("</string>");
        assert(text::occurs_at(rest@, "<string>"@, a as int));
    }
    Some((rest, a + 8, b))
}

/// Whether the value in a property list ends after it starts.
pub fn plist_value_in_order(plist: &str) -> (r: bool)
    ensures
        r == value_in_order(plist@),
{
    match find_value(plist) {
        Some((_, a, b)) => a <= b,
        None => true,
    }
}

/// Whether the volume that a property list describes can hold clones.
pub fn is_apfs(plist: &str) -> (r: bool)
    requires
        value_in_order(plist@),
    ensures
        r == (filesystem_type(plist@) == Some("apfs"@)),
{
    match find_value(plist) {
        Some((after, a, b)) => {
            let s = text::from_chars(vstd::slice::slice_subrange(after.as_slice(), a, b));
            assert(s@ =~= after@.subrange(a as int, b as int));
            let t = text::to_ascii_lowercase(text::trimmed(s.as_str()).as_str());
            text::same(t.as_str(), "apfs")
        },
        None => false,
    }
}

/// What to tell the user whose state is on a volume that cannot hold clones.
pub fn check_apfs_volume(path: &str, plist: &str) -> (r: Option<String>)
    requires
        value_in_order(plist@),
    ensures
        match r {
            Some(w) => filesystem_type(plist@) != Some("apfs"@) && w@ == "Warning: "@ + path@
                + " is not on an APFS volume. Copy-on-write clones (cp -c) will not work, and VM cloning will use full copies instead of instant CoW clones."@,
            None => filesystem_type(plist@) == Some("apfs"@),
        },
{
    if is_apfs(plist) {
        return None;
    }
    Some(
        text::cat3(
            "Warning: ",
            path,
            " is not on an APFS volume. Copy-on-write clones (cp -c) will not work, and VM cloning will use full copies instead of instant CoW clones.",
        ),
    )
}

} // verus!
