//! VM disks as ZFS volumes, cloned from the base snapshot of an image.
use crate::backend::InitConfig;
use crate::command;
use crate::command::Cmd;
use crate::config::GlobalConfig;
use crate::deeds;
use crate::deeds::Deed;
use crate::error;
use crate::error::Error;
use crate::plan;
use crate::plan::{Plan, Reply};
use crate::text;
use crate::zfs::snapshot::SnapshotInfo;
use vstd::prelude::*;

verus! {

/// The storage of an installation.
#[derive(Debug, PartialEq, Eq)]
pub struct LinuxStorage {
    pub pool: String,
    /// Dataset of the images.
    pub images_dataset: String,
    /// Dataset of the VM disks.
    pub vms_dataset: String,
}

impl LinuxStorage {
    /// The storage that a configuration describes.
    pub fn new(config: &GlobalConfig) -> (r: Self)
        ensures
            r.pool@ == config.pool@,
            r.images_dataset@ == config.images_text(),
            r.vms_dataset@ == config.vms_text(),
    {
        LinuxStorage {
            pool: config.pool.clone(),
            images_dataset: config.images_dataset(),
            vms_dataset: config.vms_dataset(),
        }
    }

    pub open spec fn image_text(self, name: Seq<char>) -> Seq<char> {
        self.images_dataset@ + "/"@ + name
    }

    pub open spec fn vm_text(self, name: Seq<char>) -> Seq<char> {
        self.vms_dataset@ + "/"@ + name
    }

    /// Volume of an image.
    pub fn image_zvol(&self, name: &str) -> (r: String)
        ensures
            r@ == self.image_text(name@),
    {
        text::cat3(self.images_dataset.as_str(), "/", name)
    }

    /// Volume of a VM.
    pub fn vm_zvol(&self, vm_name: &str) -> (r: String)
        ensures
            r@ == self.vm_text(vm_name@),
    {
        text::cat3(self.vms_dataset.as_str(), "/", vm_name)
    }

    /// The snapshot that VM disks are cloned from.
    pub fn base_snapshot(&self, image_name: &str) -> (r: String)
        ensures
            r@ == self.image_text(image_name@) + "@base"@,
            r@ == crate::zfs::snapshot::snapshot_text(
                self.image_text(image_name@),
                crate::zfs::BASE_SNAPSHOT_NAME@,
            ),
    {
        proof {
            crate::zfs::laws::law_base_snapshot_is_called_base(self.image_text(image_name@));
        }
        text::cat2(self.image_zvol(image_name).as_str(), "@base")
    }

    /// See that an image has its base snapshot.
    pub fn require_base(&self, image_name: &str, found: bool) -> (r: Result<bool, Error>)
        ensures
            match r {
                Ok(b) => found && b,
                Err(e) => !found && error::is_zfs(
                    e,
                    "image zvol '"@ + self.image_text(image_name@) + "' has no @"@ + "base"@
                        + " snapshot — the image may be corrupted"@,
                ),
            },
    {
        if found {
            Ok(true)
        } else {
            Err(
                Error::Zfs(
                    text::cat5(
                        "image zvol '",
                        self.image_zvol(image_name).as_str(),
                        "' has no @",
                        "base",
                        " snapshot — the image may be corrupted",
                    ),
                ),
            )
        }
    }
}

/// The datasets of an installation, in the order in which they are made.
pub fn init_datasets(config: &InitConfig) -> (r: Vec<String>)
    ensures
        text::views(r@) == seq![
            config.pool@ + "/"@ + config.dataset@,
            config.pool@ + "/"@ + config.dataset@ + "/images"@,
            config.pool@ + "/"@ + config.dataset@ + "/vms"@,
        ],
        forall|g: GlobalConfig|
            g.pool@ == config.pool@ && g.dataset@ == config.dataset@ ==> text::views(r@)[1]
                == #[trigger] g.images_text() && text::views(r@)[2] == g.vms_text(),
        text::views(r@)[0].is_prefix_of(text::views(r@)[1]),
        text::views(r@)[0].is_prefix_of(text::views(r@)[2]),
{
    let base = text::cat3(config.pool.as_str(), "/", config.dataset.as_str());
    let images = text::cat2(base.as_str(), "/images");
    let vms = text::cat2(base.as_str(), "/vms");
    let mut r: Vec<String> = Vec::new();
    r.push(base);
    r.push(images);
    r.push(vms);
    assert(text::views(r@) =~= seq![
        config.pool@ + "/"@ + config.dataset@,
        config.pool@ + "/"@ + config.dataset@ + "/images"@,
        config.pool@ + "/"@ + config.dataset@ + "/vms"@,
    ]);
    proof {
        let b = text::views(r@)[0];
        assert(b =~= text::views(r@)[1].subrange(0, b.len() as int));
        assert(b =~= text::views(r@)[2].subrange(0, b.len() as int));
    }
    r
}

/// The device that a pool is to be created on.
pub fn require_device(config: &InitConfig) -> (r: Result<String, Error>)
    ensures
        match r {
            Ok(d) => config.device is Some && d@ == config.device->0@,
            Err(e) => config.device is None && error::is_zfs(
                e,
                "pool '"@ + config.pool@ + "' does not exist — provide --device to create it"@,
            ),
        },
{
    match &config.device {
        Some(d) => Ok(d.clone()),
        None => Err(
            Error::Zfs(
                text::cat3(
                    "pool '",
                    config.pool.as_str(),
                    "' does not exist — provide --device to create it",
                ),
            ),
        ),
    }
}

/// Setting up the pool and its datasets, as far as they are not there.
#[derive(Clone, Copy, Debug, PartialEq, Eq, Structural)]
pub enum Init {
    /// Ask whether the pool is there.
    AskPool,
    /// Ask for its health.
    QueryPool,
    /// See that a device is given.
    RequireDevice,
    /// Create the pool.
    CreatePool,
    /// Ask whether the dataset of the installation is there.
    AskBase,
    /// Create it.
    CreateBase,
    /// Ask whether the dataset of the images is there.
    AskImages,
    /// Create it.
    CreateImages,
    /// Ask whether the dataset of the VMs is there.
    AskVms,
    /// Create it.
    CreateVms,
    /// Pool and datasets are there.
    Done,
    /// They may not be.
    Failed,
}

impl Plan for Init {
    open spec fn next(self, r: Reply) -> Self {
        match self {
            Init::AskPool => match r {
                Reply::Yes => Init::QueryPool,
                Reply::No => Init::RequireDevice,
                Reply::Error => Init::Failed,
            },
            Init::QueryPool => match r {
                Reply::Error => Init::Failed,
                _ => Init::AskBase,
            },
            Init::RequireDevice => match r {
                Reply::Error => Init::Failed,
                _ => Init::CreatePool,
            },
            Init::CreatePool => match r {
                Reply::Error => Init::Failed,
                _ => Init::AskBase,
            },
            Init::AskBase => match r {
                Reply::Yes => Init::AskImages,
                Reply::No => Init::CreateBase,
                Reply::Error => Init::Failed,
            },
            Init::CreateBase => match r {
                Reply::Error => Init::Failed,
                _ => Init::AskImages,
            },
            Init::AskImages => match r {
                Reply::Yes => Init::AskVms,
                Reply::No => Init::CreateImages,
                Reply::Error => Init::Failed,
            },
            Init::CreateImages => match r {
                Reply::Error => Init::Failed,
                _ => Init::AskVms,
            },
            Init::AskVms => match r {
                Reply::Yes => Init::Done,
                Reply::No => Init::CreateVms,
                Reply::Error => Init::Failed,
            },
            Init::CreateVms => match r {
                Reply::Error => Init::Failed,
                _ => Init::Done,
            },
            Init::Done => Init::Done,
            Init::Failed => Init::Failed,
        }
    }

    open spec fn lenient(self) -> bool {
        false
    }

    open spec fn ended(self) -> bool {
        self == Init::Done || self == Init::Failed
    }

    open spec fn doomed(self) -> bool {
        self == Init::Failed
    }

    open spec fn left(self) -> nat {
        match self {
            Init::AskPool => 9,
            Init::QueryPool => 7,
            Init::RequireDevice => 8,
            Init::CreatePool => 7,
            Init::AskBase => 6,
            Init::CreateBase => 5,
            Init::AskImages => 4,
            Init::CreateImages => 3,
            Init::AskVms => 2,
            Init::CreateVms => 1,
            _ => 0,
        }
    }

    fn step(self, r: Reply) -> (p: Self) {
        match self {
            Init::AskPool => match r {
                Reply::Yes => Init::QueryPool,
                Reply::No => Init::RequireDevice,
                Reply::Error => Init::Failed,
            },
            Init::QueryPool => match r {
                Reply::Error => Init::Failed,
                _ => Init::AskBase,
            },
            Init::RequireDevice => match r {
                Reply::Error => Init::Failed,
                _ => Init::CreatePool,
            },
            Init::CreatePool => match r {
                Reply::Error => Init::Failed,
                _ => Init::AskBase,
            },
            Init::AskBase => match r {
                Reply::Yes => Init::AskImages,
                Reply::No => Init::CreateBase,
                Reply::Error => Init::Failed,
            },
            Init::CreateBase => match r {
                Reply::Error => Init::Failed,
                _ => Init::AskImages,
            },
            Init::AskImages => match r {
                Reply::Yes => Init::AskVms,
                Reply::No => Init::CreateImages,
                Reply::Error => Init::Failed,
            },
            Init::CreateImages => match r {
                Reply::Error => Init::Failed,
                _ => Init::AskVms,
            },
            Init::AskVms => match r {
                Reply::Yes => Init::Done,
                Reply::No => Init::CreateVms,
                Reply::Error => Init::Failed,
            },
            Init::CreateVms => match r {
                Reply::Error => Init::Failed,
                _ => Init::Done,
            },
            Init::Done => Init::Done,
            Init::Failed => Init::Failed,
        }
    }

    fn is_lenient(self) -> (b: bool) {
        false
    }

    proof fn lemma_ends(self, r: Reply) {
    }
}

/// Nothing that is there is created again, and in the end everything is there: each
/// was found, or created.
pub proof fn law_init_creates_what_is_missing(replies: Seq<Reply>)
    ensures
        ({
            let p = Init::AskPool;
            let end = plan::reached(p, replies);
            &&& plan::does(p, replies, Init::CreatePool)
                ==> plan::gets(p, replies, Init::AskPool, Reply::No)
            &&& plan::does(p, replies, Init::CreateBase)
                ==> plan::gets(p, replies, Init::AskBase, Reply::No)
            &&& plan::does(p, replies, Init::CreateImages)
                ==> plan::gets(p, replies, Init::AskImages, Reply::No)
            &&& plan::does(p, replies, Init::CreateVms)
                ==> plan::gets(p, replies, Init::AskVms, Reply::No)
            &&& end == Init::Done
                ==> plan::manages(p, replies, Init::QueryPool)
                || plan::manages(p, replies, Init::CreatePool)
            &&& end == Init::Done
                ==> plan::gets(p, replies, Init::AskBase, Reply::Yes)
                || plan::manages(p, replies, Init::CreateBase)
            &&& end == Init::Done
                ==> plan::gets(p, replies, Init::AskImages, Reply::Yes)
                || plan::manages(p, replies, Init::CreateImages)
            &&& end == Init::Done
                ==> plan::gets(p, replies, Init::AskVms, Reply::Yes)
                || plan::manages(p, replies, Init::CreateVms)
        }),
{
    let p = Init::AskPool;
    plan::lemma_way_in(
        p,
        replies,
        |x: Init| x == Init::RequireDevice || x == Init::CreatePool,
        plan::getting(Init::AskPool, Reply::No),
    );
    plan::lemma_way_in(
        p,
        replies,
        |x: Init| x == Init::CreateBase,
        plan::getting(Init::AskBase, Reply::No),
    );
    plan::lemma_way_in(
        p,
        replies,
        |x: Init| x == Init::CreateImages,
        plan::getting(Init::AskImages, Reply::No),
    );
    plan::lemma_way_in(
        p,
        replies,
        |x: Init| x == Init::CreateVms,
        plan::getting(Init::AskVms, Reply::No),
    );
    plan::lemma_way_in(
        p,
        replies,
        |x: Init|
            x != Init::AskPool && x != Init::QueryPool && x != Init::RequireDevice
                && x != Init::CreatePool && x != Init::Failed,
        plan::either(plan::managing(Init::QueryPool), plan::managing(Init::CreatePool)),
    );
    plan::lemma_either(
        p,
        replies,
        plan::managing(Init::QueryPool),
        plan::managing(Init::CreatePool),
    );
    plan::lemma_way_in(
        p,
        replies,
        |x: Init|
            x == Init::AskImages || x == Init::CreateImages || x == Init::AskVms
                || x == Init::CreateVms || x == Init::Done,
        plan::either(plan::getting(Init::AskBase, Reply::Yes), plan::managing(Init::CreateBase)),
    );
    plan::lemma_either(
        p,
        replies,
        plan::getting(Init::AskBase, Reply::Yes),
        plan::managing(Init::CreateBase),
    );
    plan::lemma_way_in(
        p,
        replies,
        |x: Init| x == Init::AskVms || x == Init::CreateVms || x == Init::Done,
        plan::either(plan::getting(Init::AskImages, Reply::Yes), plan::managing(Init::CreateImages)),
    );
    plan::lemma_either(
        p,
        replies,
        plan::getting(Init::AskImages, Reply::Yes),
        plan::managing(Init::CreateImages),
    );
    plan::lemma_way_in(
        p,
        replies,
        |x: Init| x == Init::Done,
        plan::either(plan::getting(Init::AskVms, Reply::Yes), plan::managing(Init::CreateVms)),
    );
    plan::lemma_either(
        p,
        replies,
        plan::getting(Init::AskVms, Reply::Yes),
        plan::managing(Init::CreateVms),
    );
}

/// Writing an image to a volume of its own.
#[derive(Clone, Copy, Debug, PartialEq, Eq, Structural)]
pub enum ImageVolume {
    /// Create the volume.
    Create,
    /// Write the image to it and take the base snapshot.
    Write,
    /// Destroy the volume after a failure.
    Destroy,
    /// The image has its volume.
    Done,
    /// There is no volume.
    Failed,
}

impl Plan for ImageVolume {
    open spec fn next(self, r: Reply) -> Self {
        match self {
            ImageVolume::Create => match r {
                Reply::Error => ImageVolume::Failed,
                _ => ImageVolume::Write,
            },
            ImageVolume::Write => match r {
                Reply::Error => ImageVolume::Destroy,
                _ => ImageVolume::Done,
            },
            ImageVolume::Destroy => ImageVolume::Failed,
            ImageVolume::Done => ImageVolume::Done,
            ImageVolume::Failed => ImageVolume::Failed,
        }
    }

    open spec fn lenient(self) -> bool {
        self == ImageVolume::Destroy
    }

    open spec fn ended(self) -> bool {
        self == ImageVolume::Done || self == ImageVolume::Failed
    }

    open spec fn doomed(self) -> bool {
        self == ImageVolume::Destroy || self == ImageVolume::Failed
    }

    open spec fn left(self) -> nat {
        match self {
            ImageVolume::Create => 3,
            ImageVolume::Write => 2,
            ImageVolume::Destroy => 1,
            _ => 0,
        }
    }

    fn step(self, r: Reply) -> (p: Self) {
        match self {
            ImageVolume::Create => match r {
                Reply::Error => ImageVolume::Failed,
                _ => ImageVolume::Write,
            },
            ImageVolume::Write => match r {
                Reply::Error => ImageVolume::Destroy,
                _ => ImageVolume::Done,
            },
            ImageVolume::Destroy => ImageVolume::Failed,
            ImageVolume::Done => ImageVolume::Done,
            ImageVolume::Failed => ImageVolume::Failed,
        }
    }

    fn is_lenient(self) -> (b: bool) {
        match self {
            ImageVolume::Destroy => true,
            _ => false,
        }
    }

    proof fn lemma_ends(self, r: Reply) {
    }
}

/// Cloning the volume of an image for a VM.
#[derive(Clone, Copy, Debug, PartialEq, Eq, Structural)]
pub enum CloneVolume {
    /// Ask whether the base snapshot is there.
    AskBase,
    /// See that it is.
    RequireBase,
    /// Clone it.
    Clone,
    /// The VM has its volume.
    Done,
    /// It has none.
    Failed,
}

impl Plan for CloneVolume {
    open spec fn next(self, r: Reply) -> Self {
        match self {
            CloneVolume::AskBase => match r {
                Reply::Error => CloneVolume::Failed,
                _ => CloneVolume::RequireBase,
            },
            CloneVolume::RequireBase => match r {
                Reply::Error => CloneVolume::Failed,
                _ => CloneVolume::Clone,
            },
            CloneVolume::Clone => match r {
                Reply::Error => CloneVolume::Failed,
                _ => CloneVolume::Done,
            },
            CloneVolume::Done => CloneVolume::Done,
            CloneVolume::Failed => CloneVolume::Failed,
        }
    }

    open spec fn lenient(self) -> bool {
        false
    }

    open spec fn ended(self) -> bool {
        self == CloneVolume::Done || self == CloneVolume::Failed
    }

    open spec fn doomed(self) -> bool {
        self == CloneVolume::Failed
    }

    open spec fn left(self) -> nat {
        match self {
            CloneVolume::AskBase => 3,
            CloneVolume::RequireBase => 2,
            CloneVolume::Clone => 1,
            _ => 0,
        }
    }

    fn step(self, r: Reply) -> (p: Self) {
        match self {
            CloneVolume::AskBase => match r {
                Reply::Error => CloneVolume::Failed,
                _ => CloneVolume::RequireBase,
            },
            CloneVolume::RequireBase => match r {
                Reply::Error => CloneVolume::Failed,
                _ => CloneVolume::Clone,
            },
            CloneVolume::Clone => match r {
                Reply::Error => CloneVolume::Failed,
                _ => CloneVolume::Done,
            },
            CloneVolume::Done => CloneVolume::Done,
            CloneVolume::Failed => CloneVolume::Failed,
        }
    }

    fn is_lenient(self) -> (b: bool) {
        false
    }

    proof fn lemma_ends(self, r: Reply) {
    }
}

/// A clone is made only after the base snapshot was asked for and found, and a VM has
/// its volume only where the clone was made.
pub proof fn law_only_a_base_is_cloned(replies: Seq<Reply>)
    ensures
        ({
            let p = CloneVolume::AskBase;
            let end = plan::reached(p, replies);
            &&& plan::does(p, replies, CloneVolume::RequireBase)
                ==> plan::manages(p, replies, CloneVolume::AskBase)
            &&& plan::does(p, replies, CloneVolume::Clone)
                ==> plan::manages(p, replies, CloneVolume::RequireBase)
            &&& end == CloneVolume::Done ==> plan::manages(p, replies, CloneVolume::Clone)
        }),
{
    let p = CloneVolume::AskBase;
    plan::lemma_way_in(
        p,
        replies,
        |x: CloneVolume| x != CloneVolume::AskBase && x != CloneVolume::Failed,
        plan::managing(CloneVolume::AskBase),
    );
    plan::lemma_way_in(
        p,
        replies,
        |x: CloneVolume| x == CloneVolume::Clone || x == CloneVolume::Done,
        plan::managing(CloneVolume::RequireBase),
    );
    plan::lemma_way_in(
        p,
        replies,
        |x: CloneVolume| x == CloneVolume::Done,
        plan::managing(CloneVolume::Clone),
    );
}

/// Forking the volume of a VM: a snapshot of it, cloned for the other VM.
#[derive(Clone, Copy, Debug, PartialEq, Eq, Structural)]
pub enum ForkVolume {
    /// Take the snapshot.
    Snapshot,
    /// Clone it.
    Clone,
    /// Destroy the snapshot after a failure.
    DestroySnapshot,
    /// The other VM has its volume.
    Done,
    /// It has none.
    Failed,
}

impl Plan for ForkVolume {
    open spec fn next(self, r: Reply) -> Self {
        match self {
            ForkVolume::Snapshot => match r {
                Reply::Error => ForkVolume::Failed,
                _ => ForkVolume::Clone,
            },
            ForkVolume::Clone => match r {
                Reply::Error => ForkVolume::DestroySnapshot,
                _ => ForkVolume::Done,
            },
            ForkVolume::DestroySnapshot => ForkVolume::Failed,
            ForkVolume::Done => ForkVolume::Done,
            ForkVolume::Failed => ForkVolume::Failed,
        }
    }

    open spec fn lenient(self) -> bool {
        self == ForkVolume::DestroySnapshot
    }

    open spec fn ended(self) -> bool {
        self == ForkVolume::Done || self == ForkVolume::Failed
    }

    open spec fn doomed(self) -> bool {
        self == ForkVolume::DestroySnapshot || self == ForkVolume::Failed
    }

    open spec fn left(self) -> nat {
        match self {
            ForkVolume::Snapshot => 3,
            ForkVolume::Clone => 2,
            ForkVolume::DestroySnapshot => 1,
            _ => 0,
        }
    }

    fn step(self, r: Reply) -> (p: Self) {
        match self {
            ForkVolume::Snapshot => match r {
                Reply::Error => ForkVolume::Failed,
                _ => ForkVolume::Clone,
            },
            ForkVolume::Clone => match r {
                Reply::Error => ForkVolume::DestroySnapshot,
                _ => ForkVolume::Done,
            },
            ForkVolume::DestroySnapshot => ForkVolume::Failed,
            ForkVolume::Done => ForkVolume::Done,
            ForkVolume::Failed => ForkVolume::Failed,
        }
    }

    fn is_lenient(self) -> (b: bool) {
        match self {
            ForkVolume::DestroySnapshot => true,
            _ => false,
        }
    }

    proof fn lemma_ends(self, r: Reply) {
    }
}

/// A volume that could not be written is destroyed, and an image is there only where
/// it was written.
pub proof fn law_unwritten_image_is_destroyed(replies: Seq<Reply>)
    ensures
        ({
            let p = ImageVolume::Create;
            let end = plan::reached(p, replies);
            &&& end == ImageVolume::Failed && plan::manages(p, replies, ImageVolume::Create)
                ==> plan::does(p, replies, ImageVolume::Destroy)
            &&& end == ImageVolume::Done ==> plan::manages(p, replies, ImageVolume::Write)
        }),
{
    let p = ImageVolume::Create;
    plan::lemma_way_out(
        p,
        replies,
        plan::managing(ImageVolume::Create),
        |x: ImageVolume|
            x == ImageVolume::Write || x == ImageVolume::Done || x == ImageVolume::Destroy,
        plan::doing(ImageVolume::Destroy),
    );
    plan::lemma_way_in(
        p,
        replies,
        |x: ImageVolume| x == ImageVolume::Done,
        plan::managing(ImageVolume::Write),
    );
}

/// A snapshot that could not be cloned is destroyed, and a fork is there only where
/// it was cloned.
pub proof fn law_failed_fork_is_destroyed(replies: Seq<Reply>)
    ensures
        ({
            let p = ForkVolume::Snapshot;
            let end = plan::reached(p, replies);
            &&& end == ForkVolume::Failed && plan::manages(p, replies, ForkVolume::Snapshot)
                ==> plan::does(p, replies, ForkVolume::DestroySnapshot)
            &&& end == ForkVolume::Done ==> plan::manages(p, replies, ForkVolume::Clone)
        }),
{
    let p = ForkVolume::Snapshot;
    plan::lemma_way_out(
        p,
        replies,
        plan::managing(ForkVolume::Snapshot),
        |x: ForkVolume|
            x == ForkVolume::Clone || x == ForkVolume::Done
                || x == ForkVolume::DestroySnapshot,
        plan::doing(ForkVolume::DestroySnapshot),
    );
    plan::lemma_way_in(
        p,
        replies,
        |x: ForkVolume| x == ForkVolume::Done,
        plan::managing(ForkVolume::Clone),
    );
}

/// Growing the volume of a VM.
#[derive(Clone, Copy, Debug, PartialEq, Eq, Structural)]
pub enum ResizeVolume {
    /// Set the size of the volume.
    SetSize,
    /// Wait for the device.
    WaitDevice,
    /// Check the file system.
    CheckFs,
    /// Grow the file system.
    GrowFs,
    /// The disk has the new size.
    Done,
    /// It may not.
    Failed,
}

impl Plan for ResizeVolume {
    open spec fn next(self, r: Reply) -> Self {
        match self {
            ResizeVolume::SetSize => match r {
                Reply::Error => ResizeVolume::Failed,
                _ => ResizeVolume::WaitDevice,
            },
            ResizeVolume::WaitDevice => match r {
                Reply::Error => ResizeVolume::Failed,
                _ => ResizeVolume::CheckFs,
            },
            ResizeVolume::CheckFs => match r {
                Reply::Error => ResizeVolume::Failed,
                _ => ResizeVolume::GrowFs,
            },
            ResizeVolume::GrowFs => match r {
                Reply::Error => ResizeVolume::Failed,
                _ => ResizeVolume::Done,
            },
            ResizeVolume::Done => ResizeVolume::Done,
            ResizeVolume::Failed => ResizeVolume::Failed,
        }
    }

    open spec fn lenient(self) -> bool {
        false
    }

    open spec fn ended(self) -> bool {
        self == ResizeVolume::Done || self == ResizeVolume::Failed
    }

    open spec fn doomed(self) -> bool {
        self == ResizeVolume::Failed
    }

    open spec fn left(self) -> nat {
        match self {
            ResizeVolume::SetSize => 4,
            ResizeVolume::WaitDevice => 3,
            ResizeVolume::CheckFs => 2,
            ResizeVolume::GrowFs => 1,
            _ => 0,
        }
    }

    fn step(self, r: Reply) -> (p: Self) {
        match self {
            ResizeVolume::SetSize => match r {
                Reply::Error => ResizeVolume::Failed,
                _ => ResizeVolume::WaitDevice,
            },
            ResizeVolume::WaitDevice => match r {
                Reply::Error => ResizeVolume::Failed,
                _ => ResizeVolume::CheckFs,
            },
            ResizeVolume::CheckFs => match r {
                Reply::Error => ResizeVolume::Failed,
                _ => ResizeVolume::GrowFs,
            },
            ResizeVolume::GrowFs => match r {
                Reply::Error => ResizeVolume::Failed,
                _ => ResizeVolume::Done,
            },
            ResizeVolume::Done => ResizeVolume::Done,
            ResizeVolume::Failed => ResizeVolume::Failed,
        }
    }

    fn is_lenient(self) -> (b: bool) {
        false
    }

    proof fn lemma_ends(self, r: Reply) {
    }
}

/// The file system grows only after the volume has its size, the device is there and
/// the check of the file system succeeded; the disk has the new size only where it
/// grew.
pub proof fn law_resize_checks_first(replies: Seq<Reply>)
    ensures
        ({
            let p = ResizeVolume::SetSize;
            let end = plan::reached(p, replies);
            &&& plan::does(p, replies, ResizeVolume::WaitDevice)
                ==> plan::manages(p, replies, ResizeVolume::SetSize)
            &&& plan::does(p, replies, ResizeVolume::CheckFs)
                || plan::does(p, replies, ResizeVolume::GrowFs)
                ==> plan::manages(p, replies, ResizeVolume::WaitDevice)
            &&& plan::does(p, replies, ResizeVolume::GrowFs)
                ==> plan::manages(p, replies, ResizeVolume::CheckFs)
            &&& end == ResizeVolume::Done ==> plan::manages(p, replies, ResizeVolume::GrowFs)
        }),
{
    let p = ResizeVolume::SetSize;
    plan::lemma_way_in(
        p,
        replies,
        |x: ResizeVolume| x != ResizeVolume::SetSize && x != ResizeVolume::Failed,
        plan::managing(ResizeVolume::SetSize),
    );
    plan::lemma_way_in(
        p,
        replies,
        |x: ResizeVolume|
            x == ResizeVolume::CheckFs || x == ResizeVolume::GrowFs
                || x == ResizeVolume::Done,
        plan::managing(ResizeVolume::WaitDevice),
    );
    plan::lemma_way_in(
        p,
        replies,
        |x: ResizeVolume| x == ResizeVolume::GrowFs || x == ResizeVolume::Done,
        plan::managing(ResizeVolume::CheckFs),
    );
    plan::lemma_way_in(
        p,
        replies,
        |x: ResizeVolume| x == ResizeVolume::Done,
        plan::managing(ResizeVolume::GrowFs),
    );
}

/// The size to give a volume, in GiB, from the conversion of the size that is asked
/// for; the conversion fails where that is no whole number of GiB.
pub fn resize_target(gib: Result<u32, String>) -> (r: Result<u32, Error>)
    ensures
        match gib {
            Ok(n) => r == Ok::<u32, Error>(n),
            Err(why) => r matches Err(e) && (e matches Error::Zfs(m) && m@
                == "invalid resize target: "@ + why@),
        },
{
    match gib {
        Ok(n) => Ok(n),
        Err(why) => Err(Error::Zfs(text::cat2("invalid resize target: ", why.as_str()))),
    }
}

/// Destroying the pool, if it is there.
#[derive(Clone, Copy, Debug, PartialEq, Eq, Structural)]
pub enum Teardown {
    /// Ask whether the pool is there.
    AskPool,
    /// Destroy it.
    Destroy,
    /// There is no pool.
    Done,
    /// There may be one.
    Failed,
}

impl Plan for Teardown {
    open spec fn next(self, r: Reply) -> Self {
        match self {
            Teardown::AskPool => match r {
                Reply::Yes => Teardown::Destroy,
                Reply::No => Teardown::Done,
                Reply::Error => Teardown::Failed,
            },
            Teardown::Destroy => match r {
                Reply::Error => Teardown::Failed,
                _ => Teardown::Done,
            },
            Teardown::Done => Teardown::Done,
            Teardown::Failed => Teardown::Failed,
        }
    }

    open spec fn lenient(self) -> bool {
        false
    }

    open spec fn ended(self) -> bool {
        self == Teardown::Done || self == Teardown::Failed
    }

    open spec fn doomed(self) -> bool {
        self == Teardown::Failed
    }

    open spec fn left(self) -> nat {
        match self {
            Teardown::AskPool => 2,
            Teardown::Destroy => 1,
            _ => 0,
        }
    }

    fn step(self, r: Reply) -> (p: Self) {
        match self {
            Teardown::AskPool => match r {
                Reply::Yes => Teardown::Destroy,
                Reply::No => Teardown::Done,
                Reply::Error => Teardown::Failed,
            },
            Teardown::Destroy => match r {
                Reply::Error => Teardown::Failed,
                _ => Teardown::Done,
            },
            Teardown::Done => Teardown::Done,
            Teardown::Failed => Teardown::Failed,
        }
    }

    fn is_lenient(self) -> (b: bool) {
        false
    }

    proof fn lemma_ends(self, r: Reply) {
    }
}

/// A pool is destroyed only where it was found, and there is none at the end only
/// where none was found or it was destroyed.
pub proof fn law_only_a_pool_is_destroyed(replies: Seq<Reply>)
    ensures
        ({
            let p = Teardown::AskPool;
            let end = plan::reached(p, replies);
            &&& plan::does(p, replies, Teardown::Destroy)
                ==> plan::gets(p, replies, Teardown::AskPool, Reply::Yes)
            &&& end == Teardown::Done
                ==> plan::gets(p, replies, Teardown::AskPool, Reply::No)
                || plan::manages(p, replies, Teardown::Destroy)
        }),
{
    let p = Teardown::AskPool;
    plan::lemma_way_in(
        p,
        replies,
        |x: Teardown| x == Teardown::Destroy,
        plan::getting(Teardown::AskPool, Reply::Yes),
    );
    plan::lemma_way_in(
        p,
        replies,
        |x: Teardown| x == Teardown::Done,
        plan::either(plan::getting(Teardown::AskPool, Reply::No), plan::managing(Teardown::Destroy)),
    );
    plan::lemma_either(
        p,
        replies,
        plan::getting(Teardown::AskPool, Reply::No),
        plan::managing(Teardown::Destroy),
    );
}

/// Destroys a pool with everything in it.
pub fn destroy_pool(pool: &str) -> (r: Cmd)
    ensures
        r@ == command::cmd("zpool"@, seq!["destroy"@, "-f"@, pool@], "zpool destroy"@, "zpool destroy"@),
        deeds::zpool(r@) == Some(Deed::DestroyPool { name: pool@ }),
{
    proof {
        deeds::lemma_zpool();
    }
    let r = command::command("zpool", &["destroy", "-f", pool], "zpool destroy", "zpool destroy");
    assert(r@.args =~= seq!["destroy"@, "-f"@, pool@]);
    r
}

/// What is shown where the snapshot behind a fork cannot be destroyed.
pub fn fork_warning(parent_zvol: &str, forked_vm: &str, why: &str) -> (r: String)
    ensures
        r@ == "Warning: failed to clean up fork snapshot '"@ + parent_zvol@ + "@fork-"@ + forked_vm@
            + "': "@ + why@,
{
    text::cat6(
        "Warning: failed to clean up fork snapshot '",
        parent_zvol,
        "@fork-",
        forked_vm,
        "': ",
        why,
    )
}

/// Name of the snapshot that a fork is cloned from.
pub fn fork_snapshot(target_vm: &str) -> (r: String)
    ensures
        r@ == "fork-"@ + target_vm@,
{
    text::cat2("fork-", target_vm)
}

/// A pool is not grown from here.
pub fn grow() -> (e: Error)
    ensures
        error::is_zfs(
            e,
            "ZFS pools auto-expand by default; use `zpool online -e` if needed"@,
        ),
{
    Error::Zfs("ZFS pools auto-expand by default; use `zpool online -e` if needed".to_owned())
}

/// The VMs that fork snapshots are named after.
pub open spec fn forks(short_names: Seq<Seq<char>>) -> Seq<Seq<char>>
    decreases short_names.len(),
{
    if short_names.len() == 0 {
        Seq::empty()
    } else {
        let before = forks(short_names.drop_last());
        match text::without_prefix(short_names.last(), "fork-"@) {
            Some(vm) => before.push(vm),
            None => before,
        }
    }
}

/// The short names of some snapshots.
pub open spec fn short_names(v: Seq<SnapshotInfo>) -> Seq<Seq<char>> {
    Seq::new(v.len(), |i: int| v[i].short_name@)
}

/// The VMs that depend on a volume: those that were forked from it.
pub fn storage_dependents(snapshots: &Vec<SnapshotInfo>) -> (r: Vec<String>)
    ensures
        text::views(r@) == forks(short_names(snapshots@)),
{
    let mut out: Vec<String> = Vec::new();
    let ghost names = short_names(snapshots@);
    let mut i: usize = 0;
    assert(names.take(0) =~= Seq::<Seq<char>>::empty());
    assert(text::views(out@) =~= Seq::<Seq<char>>::empty());
    while i < snapshots.len()
        invariant
            i <= snapshots.len(),
            names == short_names(snapshots@),
            text::views(out@) == forks(names.take(i as int)),
        decreases snapshots.len() - i,
    {
        proof {
            assert(names.take(i + 1).drop_last() =~= names.take(i as int));
            assert(names.take(i + 1).last() == snapshots@[i as int].short_name@);
        }
        if let Some(vm) = text::strip_prefix(snapshots[i].short_name.as_str(), "fork-") {
            proof {
                text::lemma_views_push(out@, vm);
            }
            out.push(vm);
        }
        i += 1;
    }
    assert(names.take(names.len() as int) =~= names);
    out
}

/// A VM that was forked shows up among the dependents as long as its snapshot is
/// there.
pub proof fn law_forks_are_dependents(v: Seq<Seq<char>>, k: int, vm: Seq<char>)
    requires
        0 <= k < v.len(),
        v[k] == "fork-"@ + vm,
    ensures
        forks(v).contains(vm),
    decreases v.len(),
{
    let d = v.drop_last();
    let b = forks(d);
    if k == v.len() - 1 {
        assert("fork-"@.is_prefix_of("fork-"@ + vm)) by {
            assert("fork-"@ =~= ("fork-"@ + vm).take("fork-"@.len() as int));
        }
        assert(("fork-"@ + vm).skip("fork-"@.len() as int) =~= vm);
        assert(forks(v)[forks(v).len() - 1] == vm);
    } else {
        assert(d[k] == v[k]);
        law_forks_are_dependents(d, k, vm);
        let i = choose|i: int| 0 <= i < b.len() && b[i] == vm;
        assert(forks(v)[i] == vm);
    }
}

} // verus!
