//! VM disks as thin volumes of a pool.
use crate::backend::{InitConfig, VolumeHandle};
use crate::command;
use crate::command::{Cmd, Outcome};
use crate::config;
use crate::config::{ByteSize, DmThinMode, GlobalConfig};
use crate::deeds;
use crate::deeds::Deed;
use crate::dm_thin;
use crate::dm_thin::{pool, thin, tools};
use crate::error;
use crate::error::Error;
use crate::image::registry::ImageEntry;
use crate::paths;
use crate::plan;
use crate::plan::{Plan, Reply};
use crate::state::vm::VmMetadata;
use crate::text;
use vstd::prelude::*;

verus! {

/// How many volumes the size of the metadata device allows for.
pub const DEFAULT_MAX_THINS: u64 = 1024;

/// Least size of a metadata device.
pub const MIN_METADATA_SIZE_BYTES: u64 = 33_554_432;

/// Largest size of a metadata device that the kernel accepts.
pub const MAX_METADATA_SIZE_BYTES: u64 = 17_179_869_184;

/// The storage of an installation.
#[derive(Debug, PartialEq)]
pub struct DmThinStorage {
    /// A directory with the two backing files, or a block device.
    pub storage_path: String,
    /// Where the metadata of a block device is kept.
    pub state_dir: String,
    /// Which of the two the storage path is, as decided when it was set up.
    pub mode: DmThinMode,
    /// Pool block size in sectors.
    pub block_size_sectors: u32,
    pub pool_name: String,
    pub image_prefix: String,
    pub vm_prefix: String,
}

/// Where the metadata is kept.
pub open spec fn metadata_path_text(
    storage_path: Seq<char>,
    state_dir: Seq<char>,
    mode: DmThinMode,
) -> Seq<char> {
    match mode {
        DmThinMode::File => paths::joined(storage_path, "metadata.img"@),
        DmThinMode::RawDevice => paths::joined(state_dir, "dm-thin-metadata.img"@),
    }
}

/// Where the data is kept.
pub open spec fn data_path_text(storage_path: Seq<char>, mode: DmThinMode) -> Seq<char> {
    match mode {
        DmThinMode::File => paths::joined(storage_path, "data.img"@),
        DmThinMode::RawDevice => storage_path,
    }
}

/// Where the metadata and the data of a pool are kept. Metadata does not go next
/// to a block device: what is there does not outlive a reboot.
pub fn resolve_init_paths(storage_path: &str, state_dir: &str, mode: DmThinMode) -> (r: (
    String,
    String,
))
    ensures
        r.0@ == metadata_path_text(storage_path@, state_dir@, mode),
        r.1@ == data_path_text(storage_path@, mode),
{
    match mode {
        DmThinMode::File => (
            paths::join(storage_path, "metadata.img"),
            paths::join(storage_path, "data.img"),
        ),
        DmThinMode::RawDevice => (
            paths::join(state_dir, "dm-thin-metadata.img"),
            storage_path.to_owned(),
        ),
    }
}

/// The mode of a storage path that was set up before the mode was recorded.
pub open spec fn probed_mode(is_dir: bool, found: bool) -> DmThinMode {
    if is_dir || !found {
        DmThinMode::File
    } else {
        DmThinMode::RawDevice
    }
}

/// The storage path of a configuration.
pub open spec fn storage_path_text(config: GlobalConfig) -> Seq<char> {
    match config.storage_path {
        Some(p) => p@,
        None => "/var/lib/ember/dm-thin"@,
    }
}

/// The storage path of a configuration.
pub fn storage_path_of(config: &GlobalConfig) -> (r: String)
    ensures
        r@ == storage_path_text(*config),
{
    match &config.storage_path {
        Some(p) => p.clone(),
        None => "/var/lib/ember/dm-thin".to_owned(),
    }
}

impl DmThinStorage {
    /// Whether this is the storage that a configuration describes.
    pub open spec fn described(
        self,
        config: GlobalConfig,
        path_is_dir: bool,
        path_found: bool,
    ) -> bool {
        let ns = config::namespace_of(config.instance_id@);
        &&& self.storage_path@ == storage_path_text(config)
        &&& self.state_dir@ == config.state_dir@
        &&& self.mode == (match config.dm_thin_mode {
            Some(m) => m,
            None => probed_mode(path_is_dir, path_found),
        })
        &&& self.block_size_sectors == (match config.dm_thin_block_size {
            Some(b) => b,
            None => pool::DEFAULT_BLOCK_SIZE_SECTORS,
        })
        &&& self.pool_name@ == pool::pool_text(ns)
        &&& self.image_prefix@ == thin::image_prefix_text(ns)
        &&& self.vm_prefix@ == thin::vm_prefix_text(ns)
    }

    /// The storage that a configuration describes. Whether the storage path is a
    /// directory, and whether it is there, matters only where the mode is not
    /// recorded.
    pub fn new(config: &GlobalConfig, path_is_dir: bool, path_found: bool) -> (r: Self)
        ensures
            r.described(*config, path_is_dir, path_found),
    {
        let mode = match config.dm_thin_mode {
            Some(m) => m,
            None => if path_is_dir || !path_found {
                DmThinMode::File
            } else {
                DmThinMode::RawDevice
            },
        };
        let block_size_sectors: u32 = match config.dm_thin_block_size {
            Some(b) => b,
            None => pool::DEFAULT_BLOCK_SIZE_SECTORS,
        };
        let ns = config.instance_namespace();
        DmThinStorage {
            storage_path: storage_path_of(config),
            state_dir: config.state_dir.clone(),
            mode,
            block_size_sectors,
            pool_name: pool::name(ns),
            image_prefix: thin::image_prefix(ns),
            vm_prefix: thin::vm_prefix(ns),
        }
    }

    /// Where the metadata is kept.
    pub fn metadata_file(&self) -> (r: String)
        ensures
            r@ == metadata_path_text(self.storage_path@, self.state_dir@, self.mode),
    {
        resolve_init_paths(self.storage_path.as_str(), self.state_dir.as_str(), self.mode).0
    }

    /// Where the data is kept.
    pub fn data_file(&self) -> (r: String)
        ensures
            r@ == data_path_text(self.storage_path@, self.mode),
    {
        resolve_init_paths(self.storage_path.as_str(), self.state_dir.as_str(), self.mode).1
    }

    /// Device name of a VM's volume.
    pub fn vm_device(&self, vm_name: &str) -> (r: String)
        ensures
            r@ == self.vm_prefix@ + thin::sanitized(vm_name@),
    {
        thin::vm_dm_name(self.vm_prefix.as_str(), vm_name)
    }

    /// Refuses work that allocates or writes where the pool cannot take it.
    /// Growing and destroying are not refused: they are how a pool recovers.
    pub fn assert_pool_healthy(&self, status: &pool::PoolStatus) -> (r: Result<(), Error>)
        ensures
            match r {
                Ok(_) => status.mode == pool::PoolMode::ReadWrite,
                Err(e) => status.mode != pool::PoolMode::ReadWrite && error::is_pool(
                    e,
                    sick_text(self.pool_name@, *status),
                ),
            },
    {
        match status.mode {
            pool::PoolMode::ReadWrite => Ok(()),
            pool::PoolMode::ReadOnly => Err(
                Error::Pool(
                    text::cat3(
                        "dm-thin pool '",
                        self.pool_name.as_str(),
                        "' is read-only — run `thin_check` and `thin_repair` to recover",
                    ),
                ),
            ),
            pool::PoolMode::OutOfDataSpace => Err(
                Error::Pool(
                    text::cat7(
                        "dm-thin pool '",
                        self.pool_name.as_str(),
                        "' is out of data space (",
                        text::dec_u64(status.used_data_blocks).as_str(),
                        "/",
                        text::dec_u64(status.total_data_blocks).as_str(),
                        " blocks used) — run `ember storage grow --size <bigger>` to extend it",
                    ),
                ),
            ),
            pool::PoolMode::Failed => Err(
                Error::Pool(
                    text::cat3(
                        "dm-thin pool '",
                        self.pool_name.as_str(),
                        "' has failed — inspect dmesg and `thin_check` the metadata device",
                    ),
                ),
            ),
        }
    }

    /// What a new image volume is known by.
    pub fn image_handle(&self, image_name: &str, base_id: u64) -> (r: VolumeHandle)
        ensures
            r.disk_path@ == "/dev/mapper/"@ + (self.image_prefix@ + thin::sanitized(image_name@)),
            r.thin_id == Some(base_id),
    {
        let dm = thin::image_dm_name(self.image_prefix.as_str(), image_name);
        VolumeHandle { disk_path: thin::device_path(dm.as_str()), thin_id: Some(base_id) }
    }

    /// What the volume of a VM is known by.
    pub fn vm_handle(&self, vm_name: &str, id: u64) -> (r: VolumeHandle)
        ensures
            r.disk_path@ == "/dev/mapper/"@ + (self.vm_prefix@ + thin::sanitized(vm_name@)),
            r.thin_id == Some(id),
    {
        let dm = self.vm_device(vm_name);
        VolumeHandle { disk_path: thin::device_path(dm.as_str()), thin_id: Some(id) }
    }

    /// The table of the pool.
    pub fn table(&self, metadata_dev: &str, data_dev: &str, data_sectors: u64) -> (r: String)
        ensures
            r@ == pool::table_text(
                metadata_dev@,
                data_dev@,
                data_sectors,
                self.block_size_sectors,
                pool::DEFAULT_LOW_WATER_BLOCKS,
            ),
    {
        pool::pool_table(
            metadata_dev,
            data_dev,
            data_sectors,
            self.block_size_sectors,
            pool::DEFAULT_LOW_WATER_BLOCKS,
        )
    }
}

/// What is wrong with a pool that is not in normal operation.
pub open spec fn sick_text(pool_name: Seq<char>, s: pool::PoolStatus) -> Seq<char> {
    match s.mode {
        pool::PoolMode::ReadOnly => "dm-thin pool '"@ + pool_name
            + "' is read-only — run `thin_check` and `thin_repair` to recover"@,
        pool::PoolMode::OutOfDataSpace => "dm-thin pool '"@ + pool_name
            + "' is out of data space ("@ + text::dec(s.used_data_blocks as nat) + "/"@ + text::dec(
            s.total_data_blocks as nat,
        ) + " blocks used) — run `ember storage grow --size <bigger>` to extend it"@,
        _ => "dm-thin pool '"@ + pool_name
            + "' has failed — inspect dmesg and `thin_check` the metadata device"@,
    }
}

/// Size of a VM's disk in sectors.
pub fn vm_size_sectors(vm: &VmMetadata) -> (r: u64)
    ensures
        r == vm.disk_size_gib * 1024 * 1024 * 1024 / 512,
        r * 512 == vm.disk_size_gib * 0x4000_0000,
{
    (vm.disk_size_gib as u64) * 1024 * 1024 * 1024 / 512
}

/// Size of an image in sectors.
pub fn image_size_sectors(size_mib: u64) -> (r: u64)
    requires
        size_mib * 1024 * 1024 <= u64::MAX,
    ensures
        r == size_mib * 1024 * 1024 / 512,
        r * 512 == size_mib * 0x10_0000,
{
    size_mib * 1024 * 1024 / 512
}

/// The volume of a VM.
pub fn require_vm_thin_id(vm: &VmMetadata) -> (r: Result<u64, Error>)
    ensures
        match r {
            Ok(id) => vm.thin_id == Some(id),
            Err(e) => vm.thin_id is None && error::is_vm(
                e,
                "vm '"@ + vm.name@
                    + "' has no dm-thin id recorded — was the pool re-initialized?"@,
            ),
        },
{
    match vm.thin_id {
        Some(id) => Ok(id),
        None => Err(
            Error::Vm(
                text::cat3(
                    "vm '",
                    vm.name.as_str(),
                    "' has no dm-thin id recorded — was the pool re-initialized?",
                ),
            ),
        ),
    }
}

/// The base volume of an image.
pub fn require_image_thin_id(image: &ImageEntry) -> (r: Result<u64, Error>)
    ensures
        match r {
            Ok(id) => image.thin_id == Some(id),
            Err(e) => image.thin_id is None && (e matches Error::Image(m) && m@ == "image '"@
                + image.local_name@
                + "' has no dm-thin id recorded — was the pool re-initialized?"@),
        },
{
    match image.thin_id {
        Some(id) => Ok(id),
        None => Err(
            Error::Image(
                text::cat3(
                    "image '",
                    image.local_name.as_str(),
                    "' has no dm-thin id recorded — was the pool re-initialized?",
                ),
            ),
        ),
    }
}

/// The error of a pool whose metadata failed its check.
pub fn metadata_refused(metadata_dev: &str, cause: &Error) -> (e: Error)
    ensures
        e matches Error::Command { command, exit_code, stderr } && command@ == "thin_check"@
            && exit_code == 1 && stderr@ == "metadata device "@ + metadata_dev@
            + " failed thin_check; run thin_repair manually: "@ + cause.text(),
{
    Error::Command {
        command: "thin_check".to_owned(),
        exit_code: 1,
        stderr: text::cat4(
            "metadata device ",
            metadata_dev,
            " failed thin_check; run thin_repair manually: ",
            cause.to_string().as_str(),
        ),
    }
}

// -------------------------------------------------------------- activation

/// Making sure that the pool is active.
#[derive(Clone, Copy, Debug, PartialEq, Eq, Structural)]
pub enum Activation {
    /// Ask whether the pool is active.
    AskPool,
    /// Load the kernel module.
    LoadModule,
    /// List the targets and look for that of pools.
    ListTargets,
    /// Look for the loop device of the metadata.
    FindMetadata,
    /// Attach the metadata file.
    AttachMetadata,
    /// Ask whether the data is in a regular file.
    StatData,
    /// Look for the loop device of the data.
    FindData,
    /// Attach the data file.
    AttachData,
    /// Check the metadata.
    CheckMetadata,
    /// Measure the data device.
    MeasureData,
    /// Activate the pool.
    CreatePool,
    /// The pool is active.
    Active,
    /// It is not.
    Failed,
}

impl Plan for Activation {
    open spec fn next(self, r: Reply) -> Self {
        match self {
            Activation::AskPool => match r {
                Reply::Yes => Activation::Active,
                Reply::No => Activation::LoadModule,
                Reply::Error => Activation::Failed,
            },
            Activation::LoadModule => Activation::ListTargets,
            Activation::ListTargets => match r {
                Reply::Error => Activation::Failed,
                _ => Activation::FindMetadata,
            },
            Activation::FindMetadata => match r {
                Reply::Yes => Activation::StatData,
                Reply::No => Activation::AttachMetadata,
                Reply::Error => Activation::Failed,
            },
            Activation::AttachMetadata => match r {
                Reply::Error => Activation::Failed,
                _ => Activation::StatData,
            },
            Activation::StatData => match r {
                Reply::Yes => Activation::FindData,
                Reply::No => Activation::CheckMetadata,
                Reply::Error => Activation::Failed,
            },
            Activation::FindData => match r {
                Reply::Yes => Activation::CheckMetadata,
                Reply::No => Activation::AttachData,
                Reply::Error => Activation::Failed,
            },
            Activation::AttachData => match r {
                Reply::Error => Activation::Failed,
                _ => Activation::CheckMetadata,
            },
            Activation::CheckMetadata => match r {
                Reply::Error => Activation::Failed,
                _ => Activation::MeasureData,
            },
            Activation::MeasureData => match r {
                Reply::Error => Activation::Failed,
                _ => Activation::CreatePool,
            },
            Activation::CreatePool => match r {
                Reply::Error => Activation::Failed,
                _ => Activation::Active,
            },
            Activation::Active => Activation::Active,
            Activation::Failed => Activation::Failed,
        }
    }

    open spec fn lenient(self) -> bool {
        self == Activation::LoadModule
    }

    open spec fn ended(self) -> bool {
        self == Activation::Active || self == Activation::Failed
    }

    open spec fn doomed(self) -> bool {
        self == Activation::Failed
    }

    open spec fn left(self) -> nat {
        match self {
            Activation::AskPool => 11,
            Activation::LoadModule => 10,
            Activation::ListTargets => 9,
            Activation::FindMetadata => 8,
            Activation::AttachMetadata => 7,
            Activation::StatData => 6,
            Activation::FindData => 5,
            Activation::AttachData => 4,
            Activation::CheckMetadata => 3,
            Activation::MeasureData => 2,
            Activation::CreatePool => 1,
            _ => 0,
        }
    }

    fn step(self, r: Reply) -> (p: Self) {
        match self {
            Activation::AskPool => match r {
                Reply::Yes => Activation::Active,
                Reply::No => Activation::LoadModule,
                Reply::Error => Activation::Failed,
            },
            Activation::LoadModule => Activation::ListTargets,
            Activation::ListTargets => match r {
                Reply::Error => Activation::Failed,
                _ => Activation::FindMetadata,
            },
            Activation::FindMetadata => match r {
                Reply::Yes => Activation::StatData,
                Reply::No => Activation::AttachMetadata,
                Reply::Error => Activation::Failed,
            },
            Activation::AttachMetadata => match r {
                Reply::Error => Activation::Failed,
                _ => Activation::StatData,
            },
            Activation::StatData => match r {
                Reply::Yes => Activation::FindData,
                Reply::No => Activation::CheckMetadata,
                Reply::Error => Activation::Failed,
            },
            Activation::FindData => match r {
                Reply::Yes => Activation::CheckMetadata,
                Reply::No => Activation::AttachData,
                Reply::Error => Activation::Failed,
            },
            Activation::AttachData => match r {
                Reply::Error => Activation::Failed,
                _ => Activation::CheckMetadata,
            },
            Activation::CheckMetadata => match r {
                Reply::Error => Activation::Failed,
                _ => Activation::MeasureData,
            },
            Activation::MeasureData => match r {
                Reply::Error => Activation::Failed,
                _ => Activation::CreatePool,
            },
            Activation::CreatePool => match r {
                Reply::Error => Activation::Failed,
                _ => Activation::Active,
            },
            Activation::Active => Activation::Active,
            Activation::Failed => Activation::Failed,
        }
    }

    fn is_lenient(self) -> (b: bool) {
        match self {
            Activation::LoadModule => true,
            _ => false,
        }
    }

    proof fn lemma_ends(self, r: Reply) {
    }
}

/// A pool is activated only from metadata that passed its check, and is active in the
/// end only where it was so already or was created.
pub proof fn law_pool_is_checked_first(replies: Seq<Reply>)
    ensures
        ({
            let p = Activation::AskPool;
            let end = plan::reached(p, replies);
            &&& plan::does(p, replies, Activation::CreatePool)
                ==> plan::manages(p, replies, Activation::CheckMetadata)
            &&& end == Activation::Active
                ==> plan::gets(p, replies, Activation::AskPool, Reply::Yes)
                || plan::manages(p, replies, Activation::CreatePool)
        }),
{
    let p = Activation::AskPool;
    plan::lemma_way_in(
        p,
        replies,
        |x: Activation| x == Activation::MeasureData || x == Activation::CreatePool,
        plan::managing(Activation::CheckMetadata),
    );
    plan::lemma_way_in(
        p,
        replies,
        |x: Activation| x == Activation::Active,
        plan::either(plan::getting(Activation::AskPool, Reply::Yes), plan::managing(Activation::CreatePool)),
    );
    plan::lemma_either(
        p,
        replies,
        plan::getting(Activation::AskPool, Reply::Yes),
        plan::managing(Activation::CreatePool),
    );
}

// ---------------------------------------------------------------- setting up

/// What a pool is set up with, once everything that the configuration leaves to
/// the machine is known.
#[derive(Debug, PartialEq)]
pub struct InitLayout {
    pub pool_name: String,
    pub block_size_sectors: u32,
    pub mode: DmThinMode,
    pub metadata_path: String,
    pub data_path: String,
    /// Size of the pool; `None` where the block device gives it.
    pub pool_size_bytes: Option<u64>,
    /// Size of the metadata; `None` where it is to be recommended.
    pub metadata_size_bytes: Option<u64>,
}

/// The storage path that a pool is set up in.
pub fn init_storage_path(config: &InitConfig) -> (r: Result<String, Error>)
    ensures
        match r {
            Ok(p) => config.storage_path is Some && p@ == config.storage_path->0@,
            Err(e) => config.storage_path is None && error::is_config(
                e,
                "dm-thin requires --storage-path (directory or block device)"@,
            ),
        },
{
    match &config.storage_path {
        Some(p) => Ok(p.clone()),
        None => Err(
            Error::Config(
                "dm-thin requires --storage-path (directory or block device)".to_owned(),
            ),
        ),
    }
}

/// What a pool is set up with: a mode must be given, and a size for a pool in
/// files.
pub fn init_layout(config: &InitConfig, storage_path: &str) -> (r: Result<InitLayout, Error>)
    ensures
        match r {
            Err(e) => if config.dm_thin_mode is None {
                error::is_config(
                    e,
                    "dm-thin requires a resolved layout mode in InitConfig"@,
                )
            } else {
                config.dm_thin_mode == Some(DmThinMode::File) && config.dm_thin_size is None
                    && error::is_config(
                    e,
                    "dm-thin --size is required when using a file-backed pool"@,
                )
            },
            Ok(l) => {
                &&& config.dm_thin_mode == Some(l.mode)
                &&& l.pool_name@ == pool::pool_text(Some(config.instance_id@))
                &&& l.block_size_sectors == (match config.dm_thin_block_size {
                    Some(b) => b,
                    None => pool::DEFAULT_BLOCK_SIZE_SECTORS,
                })
                &&& l.metadata_path@ == metadata_path_text(
                    storage_path@,
                    config.state_dir@,
                    l.mode,
                )
                &&& l.data_path@ == data_path_text(storage_path@, l.mode)
                &&& l.pool_size_bytes == (match config.dm_thin_size {
                    Some(s) => Some(s.count),
                    None => None,
                })
                &&& l.pool_size_bytes is None ==> l.mode == DmThinMode::RawDevice
                &&& l.metadata_size_bytes == (match config.dm_thin_metadata_size {
                    Some(s) => Some(s.count),
                    None => None,
                })
            },
        },
{
    let mode = match config.dm_thin_mode {
        Some(m) => m,
        None => return Err(
            Error::Config("dm-thin requires a resolved layout mode in InitConfig".to_owned()),
        ),
    };
    let pool_size_bytes: Option<u64> = match config.dm_thin_size {
        Some(s) => Some(s.bytes()),
        None => match mode {
            DmThinMode::RawDevice => None,
            DmThinMode::File => return Err(
                Error::Config(
                    "dm-thin --size is required when using a file-backed pool".to_owned(),
                ),
            ),
        },
    };
    let metadata_size_bytes: Option<u64> = match config.dm_thin_metadata_size {
        Some(s) => Some(s.bytes()),
        None => None,
    };
    let block_size_sectors: u32 = match config.dm_thin_block_size {
        Some(b) => b,
        None => pool::DEFAULT_BLOCK_SIZE_SECTORS,
    };
    let (metadata_path, data_path) = resolve_init_paths(
        storage_path,
        config.state_dir.as_str(),
        mode,
    );
    Ok(
        InitLayout {
            pool_name: pool::name(Some(config.instance_id.as_str())),
            block_size_sectors,
            mode,
            metadata_path,
            data_path,
            pool_size_bytes,
            metadata_size_bytes,
        },
    )
}

/// A recommended metadata size within what the kernel accepts.
pub open spec fn clamped(n: u64) -> u64 {
    if n < MIN_METADATA_SIZE_BYTES {
        MIN_METADATA_SIZE_BYTES
    } else if n > MAX_METADATA_SIZE_BYTES {
        MAX_METADATA_SIZE_BYTES
    } else {
        n
    }
}

/// A recommended metadata size within what the kernel accepts.
pub fn clamp_metadata_size(recommended: u64) -> (r: u64)
    ensures
        r == clamped(recommended),
        MIN_METADATA_SIZE_BYTES <= r <= MAX_METADATA_SIZE_BYTES,
{
    if recommended < MIN_METADATA_SIZE_BYTES {
        MIN_METADATA_SIZE_BYTES
    } else if recommended > MAX_METADATA_SIZE_BYTES {
        MAX_METADATA_SIZE_BYTES
    } else {
        recommended
    }
}

/// Asks for the metadata size of a pool.
pub fn ask_metadata_size(pool_size_bytes: u64, block_size_sectors: u32) -> (r: Cmd)
    ensures
        r@ == command::cmd(
            "thin_metadata_size"@,
            seq![
                "--block-size"@,
                text::dec((block_size_sectors * 512) as nat),
                "--pool-size"@,
                text::dec(pool_size_bytes as nat),
                "--max-thins"@,
                text::dec(1024),
                "--numeric-only"@,
                "--unit"@,
                "b"@,
            ],
            "thin_metadata_size"@,
            "thin_metadata_size"@,
        ),
{
    tools::metadata_size(pool_size_bytes, block_size_sectors as u64 * 512, DEFAULT_MAX_THINS)
}

/// Setting up a pool.
#[derive(Clone, Copy, Debug, PartialEq, Eq, Structural)]
pub enum Init {
    /// See that a storage path is given.
    RequirePath,
    /// Load the kernel module.
    LoadModule,
    /// List the targets and look for that of pools.
    ListTargets,
    /// Work out the layout; yes where it gives the size of the pool.
    Layout,
    /// Measure the block device.
    MeasureDevice,
    /// See whether the size of the metadata is given.
    Metadata,
    /// Ask for the recommended size.
    AskMetadataSize,
    /// Ask whether the metadata file is missing.
    AskMetadataFile,
    /// Make the directory of the metadata file.
    MakeMetadataDir,
    /// Create the metadata file.
    CreateMetadata,
    /// Ask whether the data is in a regular file, or missing.
    AskDataFile,
    /// Make the directory of the data file.
    MakeDataDir,
    /// Ask whether the data file is missing.
    AskDataMissing,
    /// Create the data file.
    CreateData,
    /// Zero the start of the metadata, so that it is formatted.
    ZeroHead,
    /// Look for the loop device of the metadata.
    FindMetadata,
    /// Attach the metadata file.
    AttachMetadata,
    /// Ask whether the data is in a regular file.
    StatData,
    /// Look for the loop device of the data.
    FindData,
    /// Attach the data file.
    AttachData,
    /// Measure the data device.
    MeasureData,
    /// Activate the pool.
    CreatePool,
    /// Detach the metadata.
    DetachMetadataOnly,
    /// Detach the metadata.
    DetachMetadata,
    /// Ask whether the data is in a regular file.
    AskDataLoop,
    /// Detach the data.
    DetachData,
    /// The pool is active.
    Done,
    /// It is not.
    Failed,
}

impl Plan for Init {
    open spec fn next(self, r: Reply) -> Self {
        match self {
            Init::RequirePath => match r {
                Reply::Error => Init::Failed,
                _ => Init::LoadModule,
            },
            Init::LoadModule => Init::ListTargets,
            Init::ListTargets => match r {
                Reply::Error => Init::Failed,
                _ => Init::Layout,
            },
            Init::Layout => match r {
                Reply::Yes => Init::Metadata,
                Reply::No => Init::MeasureDevice,
                Reply::Error => Init::Failed,
            },
            Init::MeasureDevice => match r {
                Reply::Error => Init::Failed,
                _ => Init::Metadata,
            },
            Init::Metadata => match r {
                Reply::Yes => Init::AskMetadataFile,
                Reply::No => Init::AskMetadataSize,
                Reply::Error => Init::Failed,
            },
            Init::AskMetadataSize => match r {
                Reply::Error => Init::Failed,
                _ => Init::AskMetadataFile,
            },
            Init::AskMetadataFile => match r {
                Reply::Yes => Init::MakeMetadataDir,
                Reply::No => Init::AskDataFile,
                Reply::Error => Init::Failed,
            },
            Init::MakeMetadataDir => match r {
                Reply::Error => Init::Failed,
                _ => Init::CreateMetadata,
            },
            Init::CreateMetadata => match r {
                Reply::Error => Init::Failed,
                _ => Init::AskDataFile,
            },
            Init::AskDataFile => match r {
                Reply::Yes => Init::MakeDataDir,
                Reply::No => Init::ZeroHead,
                Reply::Error => Init::Failed,
            },
            Init::MakeDataDir => match r {
                Reply::Error => Init::Failed,
                _ => Init::AskDataMissing,
            },
            Init::AskDataMissing => match r {
                Reply::Yes => Init::CreateData,
                Reply::No => Init::ZeroHead,
                Reply::Error => Init::Failed,
            },
            Init::CreateData => match r {
                Reply::Error => Init::Failed,
                _ => Init::ZeroHead,
            },
            Init::ZeroHead => match r {
                Reply::Error => Init::Failed,
                _ => Init::FindMetadata,
            },
            Init::FindMetadata => match r {
                Reply::Yes => Init::StatData,
                Reply::No => Init::AttachMetadata,
                Reply::Error => Init::Failed,
            },
            Init::AttachMetadata => match r {
                Reply::Error => Init::Failed,
                _ => Init::StatData,
            },
            Init::StatData => match r {
                Reply::Yes => Init::FindData,
                Reply::No => Init::MeasureData,
                Reply::Error => Init::DetachMetadataOnly,
            },
            Init::FindData => match r {
                Reply::Yes => Init::MeasureData,
                Reply::No => Init::AttachData,
                Reply::Error => Init::DetachMetadataOnly,
            },
            Init::AttachData => match r {
                Reply::Error => Init::DetachMetadataOnly,
                _ => Init::MeasureData,
            },
            Init::MeasureData => match r {
                Reply::Error => Init::DetachMetadata,
                _ => Init::CreatePool,
            },
            Init::CreatePool => match r {
                Reply::Error => Init::DetachMetadata,
                _ => Init::Done,
            },
            Init::DetachMetadataOnly => Init::Failed,
            Init::DetachMetadata => Init::AskDataLoop,
            Init::AskDataLoop => match r {
                Reply::Yes => Init::DetachData,
                _ => Init::Failed,
            },
            Init::DetachData => Init::Failed,
            Init::Done => Init::Done,
            Init::Failed => Init::Failed,
        }
    }

    open spec fn lenient(self) -> bool {
        self == Init::LoadModule || self == Init::DetachMetadataOnly
            || self == Init::DetachMetadata || self == Init::AskDataLoop
            || self == Init::DetachData
    }

    open spec fn ended(self) -> bool {
        self == Init::Done || self == Init::Failed
    }

    open spec fn doomed(self) -> bool {
        match self {
            Init::DetachMetadataOnly | Init::DetachMetadata | Init::AskDataLoop
            | Init::DetachData | Init::Failed => true,
            _ => false,
        }
    }

    open spec fn left(self) -> nat {
        match self {
            Init::RequirePath => 25,
            Init::LoadModule => 24,
            Init::ListTargets => 23,
            Init::Layout => 22,
            Init::MeasureDevice => 21,
            Init::Metadata => 20,
            Init::AskMetadataSize => 19,
            Init::AskMetadataFile => 18,
            Init::MakeMetadataDir => 17,
            Init::CreateMetadata => 16,
            Init::AskDataFile => 15,
            Init::MakeDataDir => 14,
            Init::AskDataMissing => 13,
            Init::CreateData => 12,
            Init::ZeroHead => 11,
            Init::FindMetadata => 10,
            Init::AttachMetadata => 9,
            Init::StatData => 8,
            Init::FindData => 7,
            Init::AttachData => 6,
            Init::MeasureData => 5,
            Init::CreatePool => 4,
            Init::DetachMetadataOnly => 1,
            Init::DetachMetadata => 3,
            Init::AskDataLoop => 2,
            Init::DetachData => 1,
            _ => 0,
        }
    }

    fn step(self, r: Reply) -> (p: Self) {
        match self {
            Init::RequirePath => match r {
                Reply::Error => Init::Failed,
                _ => Init::LoadModule,
            },
            Init::LoadModule => Init::ListTargets,
            Init::ListTargets => match r {
                Reply::Error => Init::Failed,
                _ => Init::Layout,
            },
            Init::Layout => match r {
                Reply::Yes => Init::Metadata,
                Reply::No => Init::MeasureDevice,
                Reply::Error => Init::Failed,
            },
            Init::MeasureDevice => match r {
                Reply::Error => Init::Failed,
                _ => Init::Metadata,
            },
            Init::Metadata => match r {
                Reply::Yes => Init::AskMetadataFile,
                Reply::No => Init::AskMetadataSize,
                Reply::Error => Init::Failed,
            },
            Init::AskMetadataSize => match r {
                Reply::Error => Init::Failed,
                _ => Init::AskMetadataFile,
            },
            Init::AskMetadataFile => match r {
                Reply::Yes => Init::MakeMetadataDir,
                Reply::No => Init::AskDataFile,
                Reply::Error => Init::Failed,
            },
            Init::MakeMetadataDir => match r {
                Reply::Error => Init::Failed,
                _ => Init::CreateMetadata,
            },
            Init::CreateMetadata => match r {
                Reply::Error => Init::Failed,
                _ => Init::AskDataFile,
            },
            Init::AskDataFile => match r {
                Reply::Yes => Init::MakeDataDir,
                Reply::No => Init::ZeroHead,
                Reply::Error => Init::Failed,
            },
            Init::MakeDataDir => match r {
                Reply::Error => Init::Failed,
                _ => Init::AskDataMissing,
            },
            Init::AskDataMissing => match r {
                Reply::Yes => Init::CreateData,
                Reply::No => Init::ZeroHead,
                Reply::Error => Init::Failed,
            },
            Init::CreateData => match r {
                Reply::Error => Init::Failed,
                _ => Init::ZeroHead,
            },
            Init::ZeroHead => match r {
                Reply::Error => Init::Failed,
                _ => Init::FindMetadata,
            },
            Init::FindMetadata => match r {
                Reply::Yes => Init::StatData,
                Reply::No => Init::AttachMetadata,
                Reply::Error => Init::Failed,
            },
            Init::AttachMetadata => match r {
                Reply::Error => Init::Failed,
                _ => Init::StatData,
            },
            Init::StatData => match r {
                Reply::Yes => Init::FindData,
                Reply::No => Init::MeasureData,
                Reply::Error => Init::DetachMetadataOnly,
            },
            Init::FindData => match r {
                Reply::Yes => Init::MeasureData,
                Reply::No => Init::AttachData,
                Reply::Error => Init::DetachMetadataOnly,
            },
            Init::AttachData => match r {
                Reply::Error => Init::DetachMetadataOnly,
                _ => Init::MeasureData,
            },
            Init::MeasureData => match r {
                Reply::Error => Init::DetachMetadata,
                _ => Init::CreatePool,
            },
            Init::CreatePool => match r {
                Reply::Error => Init::DetachMetadata,
                _ => Init::Done,
            },
            Init::DetachMetadataOnly => Init::Failed,
            Init::DetachMetadata => Init::AskDataLoop,
            Init::AskDataLoop => match r {
                Reply::Yes => Init::DetachData,
                _ => Init::Failed,
            },
            Init::DetachData => Init::Failed,
            Init::Done => Init::Done,
            Init::Failed => Init::Failed,
        }
    }

    fn is_lenient(self) -> (b: bool) {
        match self {
            Init::LoadModule | Init::DetachMetadataOnly | Init::DetachMetadata
            | Init::AskDataLoop | Init::DetachData => true,
            _ => false,
        }
    }

    proof fn lemma_ends(self, r: Reply) {
    }
}

/// A set-up that fails leaves no loop device behind: metadata that was attached is
/// detached, and so is data that was, which is asked for where a set-up fails after
/// it was to be attached.
pub proof fn law_failed_init_detaches(replies: Seq<Reply>)
    ensures
        ({
            let p = Init::RequirePath;
            let end = plan::reached(p, replies);
            &&& end == Init::Failed && (plan::gets(p, replies, Init::FindMetadata, Reply::Yes)
                || plan::manages(p, replies, Init::AttachMetadata))
                ==> plan::does(p, replies, Init::DetachMetadata)
                || plan::does(p, replies, Init::DetachMetadataOnly)
            &&& end == Init::Failed && plan::does(p, replies, Init::MeasureData)
                ==> plan::does(p, replies, Init::AskDataLoop)
            &&& end.ended() && plan::gets(p, replies, Init::AskDataLoop, Reply::Yes)
                ==> plan::does(p, replies, Init::DetachData)
        }),
{
    let p = Init::RequirePath;
    plan::lemma_either(
        p,
        replies,
        plan::getting(Init::FindMetadata, Reply::Yes),
        plan::managing(Init::AttachMetadata),
    );
    plan::lemma_way_out(
        p,
        replies,
        plan::either(plan::getting(Init::FindMetadata, Reply::Yes), plan::managing(Init::AttachMetadata)),
        |x: Init|
            x == Init::StatData || x == Init::FindData || x == Init::AttachData
                || x == Init::MeasureData || x == Init::CreatePool || x == Init::Done
                || x == Init::DetachMetadata || x == Init::DetachMetadataOnly,
        plan::either(plan::doing(Init::DetachMetadata), plan::doing(Init::DetachMetadataOnly)),
    );
    plan::lemma_either(
        p,
        replies,
        plan::doing(Init::DetachMetadata),
        plan::doing(Init::DetachMetadataOnly),
    );
    plan::lemma_way_out(
        p,
        replies,
        plan::doing(Init::MeasureData),
        |x: Init|
            x == Init::CreatePool || x == Init::Done || x == Init::DetachMetadata
                || x == Init::AskDataLoop,
        plan::doing(Init::AskDataLoop),
    );
    plan::lemma_way_out(
        p,
        replies,
        plan::getting(Init::AskDataLoop, Reply::Yes),
        |x: Init| x == Init::DetachData,
        plan::doing(Init::DetachData),
    );
}

/// The pool is created only after the start of its metadata was zeroed, and it is
/// there in the end only where it was created.
pub proof fn law_init_formats(replies: Seq<Reply>)
    ensures
        ({
            let p = Init::RequirePath;
            let end = plan::reached(p, replies);
            &&& plan::does(p, replies, Init::CreatePool)
                ==> plan::manages(p, replies, Init::ZeroHead)
            &&& end == Init::Done ==> plan::manages(p, replies, Init::CreatePool)
        }),
{
    let p = Init::RequirePath;
    plan::lemma_way_in(
        p,
        replies,
        |x: Init|
            x == Init::FindMetadata || x == Init::AttachMetadata || x == Init::StatData
                || x == Init::FindData || x == Init::AttachData || x == Init::MeasureData
                || x == Init::CreatePool || x == Init::DetachMetadata
                || x == Init::DetachMetadataOnly || x == Init::AskDataLoop
                || x == Init::DetachData || x == Init::Done,
        plan::managing(Init::ZeroHead),
    );
    plan::lemma_way_in(p, replies, |x: Init| x == Init::Done, plan::managing(Init::CreatePool));
}

// ------------------------------------------------------------------- images

/// Writing an image into the pool: it goes to a staging volume, of which the base
/// is a snapshot.
#[derive(Clone, Copy, Debug, PartialEq, Eq, Structural)]
pub enum ImageVolume {
    /// Make sure that the pool is active.
    EnsurePool,
    /// See that the pool takes writes.
    CheckHealth,
    /// Ask whether an earlier run left the staging device.
    AskStaging,
    /// Take the staging device down.
    DropStaging,
    /// Create the staging volume.
    Allocate,
    /// Activate the staging volume.
    Activate,
    /// Write the image to it.
    Write,
    /// Suspend it.
    Suspend,
    /// Take the snapshot.
    Snapshot,
    /// Resume the staging device.
    Resume,
    /// Take the staging device down.
    Deactivate,
    /// Delete the staging volume.
    Delete,
    /// Resume the staging device after a failure.
    ResumeFailed,
    /// Take the staging device down after a failure.
    DeactivateFailed,
    /// Delete the staging volume after a failure.
    DeleteFailed,
    /// The snapshot is the base of the image.
    Done,
    /// There is no base.
    Failed,
}

impl Plan for ImageVolume {
    open spec fn next(self, r: Reply) -> Self {
        match self {
            ImageVolume::EnsurePool => match r {
                Reply::Error => ImageVolume::Failed,
                _ => ImageVolume::CheckHealth,
            },
            ImageVolume::CheckHealth => match r {
                Reply::Error => ImageVolume::Failed,
                _ => ImageVolume::AskStaging,
            },
            ImageVolume::AskStaging => match r {
                Reply::Yes => ImageVolume::DropStaging,
                _ => ImageVolume::Allocate,
            },
            ImageVolume::DropStaging => ImageVolume::Allocate,
            ImageVolume::Allocate => match r {
                Reply::Error => ImageVolume::Failed,
                _ => ImageVolume::Activate,
            },
            ImageVolume::Activate => match r {
                Reply::Error => ImageVolume::DeleteFailed,
                _ => ImageVolume::Write,
            },
            ImageVolume::Write => match r {
                Reply::Error => ImageVolume::DeactivateFailed,
                _ => ImageVolume::Suspend,
            },
            ImageVolume::Suspend => match r {
                Reply::Error => ImageVolume::DeactivateFailed,
                _ => ImageVolume::Snapshot,
            },
            ImageVolume::Snapshot => match r {
                Reply::Error => ImageVolume::ResumeFailed,
                _ => ImageVolume::Resume,
            },
            ImageVolume::Resume => ImageVolume::Deactivate,
            ImageVolume::Deactivate => ImageVolume::Delete,
            ImageVolume::Delete => ImageVolume::Done,
            ImageVolume::ResumeFailed => ImageVolume::DeactivateFailed,
            ImageVolume::DeactivateFailed => ImageVolume::DeleteFailed,
            ImageVolume::DeleteFailed => ImageVolume::Failed,
            ImageVolume::Done => ImageVolume::Done,
            ImageVolume::Failed => ImageVolume::Failed,
        }
    }

    open spec fn lenient(self) -> bool {
        self == ImageVolume::AskStaging || self == ImageVolume::DropStaging
            || self == ImageVolume::Resume || self == ImageVolume::Deactivate
            || self == ImageVolume::Delete || self == ImageVolume::ResumeFailed
            || self == ImageVolume::DeactivateFailed || self == ImageVolume::DeleteFailed
    }

    open spec fn ended(self) -> bool {
        self == ImageVolume::Done || self == ImageVolume::Failed
    }

    open spec fn doomed(self) -> bool {
        match self {
            ImageVolume::ResumeFailed | ImageVolume::DeactivateFailed
            | ImageVolume::DeleteFailed | ImageVolume::Failed => true,
            _ => false,
        }
    }

    open spec fn left(self) -> nat {
        match self {
            ImageVolume::EnsurePool => 12,
            ImageVolume::CheckHealth => 11,
            ImageVolume::AskStaging => 10,
            ImageVolume::DropStaging => 9,
            ImageVolume::Allocate => 8,
            ImageVolume::Activate => 7,
            ImageVolume::Write => 6,
            ImageVolume::Suspend => 5,
            ImageVolume::Snapshot => 4,
            ImageVolume::Resume => 3,
            ImageVolume::Deactivate => 2,
            ImageVolume::Delete => 1,
            ImageVolume::ResumeFailed => 3,
            ImageVolume::DeactivateFailed => 2,
            ImageVolume::DeleteFailed => 1,
            _ => 0,
        }
    }

    fn step(self, r: Reply) -> (p: Self) {
        match self {
            ImageVolume::EnsurePool => match r {
                Reply::Error => ImageVolume::Failed,
                _ => ImageVolume::CheckHealth,
            },
            ImageVolume::CheckHealth => match r {
                Reply::Error => ImageVolume::Failed,
                _ => ImageVolume::AskStaging,
            },
            ImageVolume::AskStaging => match r {
                Reply::Yes => ImageVolume::DropStaging,
                _ => ImageVolume::Allocate,
            },
            ImageVolume::DropStaging => ImageVolume::Allocate,
            ImageVolume::Allocate => match r {
                Reply::Error => ImageVolume::Failed,
                _ => ImageVolume::Activate,
            },
            ImageVolume::Activate => match r {
                Reply::Error => ImageVolume::DeleteFailed,
                _ => ImageVolume::Write,
            },
            ImageVolume::Write => match r {
                Reply::Error => ImageVolume::DeactivateFailed,
                _ => ImageVolume::Suspend,
            },
            ImageVolume::Suspend => match r {
                Reply::Error => ImageVolume::DeactivateFailed,
                _ => ImageVolume::Snapshot,
            },
            ImageVolume::Snapshot => match r {
                Reply::Error => ImageVolume::ResumeFailed,
                _ => ImageVolume::Resume,
            },
            ImageVolume::Resume => ImageVolume::Deactivate,
            ImageVolume::Deactivate => ImageVolume::Delete,
            ImageVolume::Delete => ImageVolume::Done,
            ImageVolume::ResumeFailed => ImageVolume::DeactivateFailed,
            ImageVolume::DeactivateFailed => ImageVolume::DeleteFailed,
            ImageVolume::DeleteFailed => ImageVolume::Failed,
            ImageVolume::Done => ImageVolume::Done,
            ImageVolume::Failed => ImageVolume::Failed,
        }
    }

    fn is_lenient(self) -> (b: bool) {
        match self {
            ImageVolume::AskStaging | ImageVolume::DropStaging | ImageVolume::Resume
            | ImageVolume::Deactivate | ImageVolume::Delete | ImageVolume::ResumeFailed
            | ImageVolume::DeactivateFailed | ImageVolume::DeleteFailed => true,
            _ => false,
        }
    }

    proof fn lemma_ends(self, r: Reply) {
    }
}

/// The staging volume is deleted on every way out, and taken down before that where
/// it was activated; a snapshot is taken only of a suspended device, which is resumed
/// afterwards; and an image is there only where it was written and its snapshot
/// taken.
pub proof fn law_staging_is_deleted(replies: Seq<Reply>)
    ensures
        ({
            let p = ImageVolume::EnsurePool;
            let end = plan::reached(p, replies);
            &&& end.ended() && plan::manages(p, replies, ImageVolume::Allocate)
                ==> plan::does(p, replies, ImageVolume::Delete)
                || plan::does(p, replies, ImageVolume::DeleteFailed)
            &&& end.ended() && plan::manages(p, replies, ImageVolume::Activate)
                ==> plan::does(p, replies, ImageVolume::Deactivate)
                || plan::does(p, replies, ImageVolume::DeactivateFailed)
            &&& end.ended() && plan::manages(p, replies, ImageVolume::Suspend)
                ==> plan::does(p, replies, ImageVolume::Resume)
                || plan::does(p, replies, ImageVolume::ResumeFailed)
            &&& plan::does(p, replies, ImageVolume::Snapshot)
                ==> plan::manages(p, replies, ImageVolume::Suspend)
            &&& end == ImageVolume::Done ==> plan::manages(p, replies, ImageVolume::Write)
            &&& end == ImageVolume::Done ==> plan::manages(p, replies, ImageVolume::Snapshot)
            &&& plan::does(p, replies, ImageVolume::Allocate)
                ==> plan::manages(p, replies, ImageVolume::CheckHealth)
        }),
{
    let p = ImageVolume::EnsurePool;
    plan::lemma_way_out(
        p,
        replies,
        plan::managing(ImageVolume::Allocate),
        |x: ImageVolume|
            x != ImageVolume::EnsurePool && x != ImageVolume::CheckHealth
                && x != ImageVolume::AskStaging && x != ImageVolume::DropStaging
                && x != ImageVolume::Allocate && x != ImageVolume::Done
                && x != ImageVolume::Failed,
        plan::either(plan::doing(ImageVolume::Delete), plan::doing(ImageVolume::DeleteFailed)),
    );
    plan::lemma_either(
        p,
        replies,
        plan::doing(ImageVolume::Delete),
        plan::doing(ImageVolume::DeleteFailed),
    );
    plan::lemma_way_out(
        p,
        replies,
        plan::managing(ImageVolume::Activate),
        |x: ImageVolume|
            x == ImageVolume::Write || x == ImageVolume::Suspend
                || x == ImageVolume::Snapshot || x == ImageVolume::Resume
                || x == ImageVolume::Deactivate || x == ImageVolume::ResumeFailed
                || x == ImageVolume::DeactivateFailed,
        plan::either(plan::doing(ImageVolume::Deactivate), plan::doing(ImageVolume::DeactivateFailed)),
    );
    plan::lemma_either(
        p,
        replies,
        plan::doing(ImageVolume::Deactivate),
        plan::doing(ImageVolume::DeactivateFailed),
    );
    plan::lemma_way_out(
        p,
        replies,
        plan::managing(ImageVolume::Suspend),
        |x: ImageVolume|
            x == ImageVolume::Snapshot || x == ImageVolume::Resume
                || x == ImageVolume::ResumeFailed,
        plan::either(plan::doing(ImageVolume::Resume), plan::doing(ImageVolume::ResumeFailed)),
    );
    plan::lemma_either(
        p,
        replies,
        plan::doing(ImageVolume::Resume),
        plan::doing(ImageVolume::ResumeFailed),
    );
    plan::lemma_way_in(
        p,
        replies,
        |x: ImageVolume|
            x == ImageVolume::Snapshot || x == ImageVolume::Resume
                || x == ImageVolume::ResumeFailed || x == ImageVolume::Deactivate
                || x == ImageVolume::Delete || x == ImageVolume::Done,
        plan::managing(ImageVolume::Suspend),
    );
    plan::lemma_way_in(
        p,
        replies,
        |x: ImageVolume|
            x == ImageVolume::Suspend || x == ImageVolume::Snapshot
                || x == ImageVolume::Resume || x == ImageVolume::ResumeFailed
                || x == ImageVolume::Deactivate || x == ImageVolume::Delete
                || x == ImageVolume::Done,
        plan::managing(ImageVolume::Write),
    );
    plan::lemma_way_in(
        p,
        replies,
        |x: ImageVolume|
            x == ImageVolume::Resume || x == ImageVolume::Deactivate
                || x == ImageVolume::Delete || x == ImageVolume::Done,
        plan::managing(ImageVolume::Snapshot),
    );
    plan::lemma_way_in(
        p,
        replies,
        |x: ImageVolume|
            x != ImageVolume::EnsurePool && x != ImageVolume::CheckHealth
                && x != ImageVolume::Failed,
        plan::managing(ImageVolume::CheckHealth),
    );
}

// --------------------------------------------------------------------- disks

/// Making the disk of a VM: a snapshot of an image or of another disk.
#[derive(Clone, Copy, Debug, PartialEq, Eq, Structural)]
pub enum CloneVolume {
    /// Make sure that the pool is active.
    EnsurePool,
    /// See that the pool takes writes.
    CheckHealth,
    /// See that the source has a volume.
    RequireId,
    /// Take the snapshot.
    Snapshot,
    /// Activate it.
    Activate,
    /// Delete the snapshot after a failure.
    Delete,
    /// The disk is active.
    Done,
    /// There is no disk.
    Failed,
}

impl Plan for CloneVolume {
    open spec fn next(self, r: Reply) -> Self {
        match self {
            CloneVolume::EnsurePool => match r {
                Reply::Error => CloneVolume::Failed,
                _ => CloneVolume::CheckHealth,
            },
            CloneVolume::CheckHealth => match r {
                Reply::Error => CloneVolume::Failed,
                _ => CloneVolume::RequireId,
            },
            CloneVolume::RequireId => match r {
                Reply::Error => CloneVolume::Failed,
                _ => CloneVolume::Snapshot,
            },
            CloneVolume::Snapshot => match r {
                Reply::Error => CloneVolume::Failed,
                _ => CloneVolume::Activate,
            },
            CloneVolume::Activate => match r {
                Reply::Error => CloneVolume::Delete,
                _ => CloneVolume::Done,
            },
            CloneVolume::Delete => CloneVolume::Failed,
            CloneVolume::Done => CloneVolume::Done,
            CloneVolume::Failed => CloneVolume::Failed,
        }
    }

    open spec fn lenient(self) -> bool {
        self == CloneVolume::Delete
    }

    open spec fn ended(self) -> bool {
        self == CloneVolume::Done || self == CloneVolume::Failed
    }

    open spec fn doomed(self) -> bool {
        self == CloneVolume::Delete || self == CloneVolume::Failed
    }

    open spec fn left(self) -> nat {
        match self {
            CloneVolume::EnsurePool => 6,
            CloneVolume::CheckHealth => 5,
            CloneVolume::RequireId => 4,
            CloneVolume::Snapshot => 3,
            CloneVolume::Activate => 2,
            CloneVolume::Delete => 1,
            _ => 0,
        }
    }

    fn step(self, r: Reply) -> (p: Self) {
        match self {
            CloneVolume::EnsurePool => match r {
                Reply::Error => CloneVolume::Failed,
                _ => CloneVolume::CheckHealth,
            },
            CloneVolume::CheckHealth => match r {
                Reply::Error => CloneVolume::Failed,
                _ => CloneVolume::RequireId,
            },
            CloneVolume::RequireId => match r {
                Reply::Error => CloneVolume::Failed,
                _ => CloneVolume::Snapshot,
            },
            CloneVolume::Snapshot => match r {
                Reply::Error => CloneVolume::Failed,
                _ => CloneVolume::Activate,
            },
            CloneVolume::Activate => match r {
                Reply::Error => CloneVolume::Delete,
                _ => CloneVolume::Done,
            },
            CloneVolume::Delete => CloneVolume::Failed,
            CloneVolume::Done => CloneVolume::Done,
            CloneVolume::Failed => CloneVolume::Failed,
        }
    }

    fn is_lenient(self) -> (b: bool) {
        match self {
            CloneVolume::Delete => true,
            _ => false,
        }
    }

    proof fn lemma_ends(self, r: Reply) {
    }
}

/// A snapshot that cannot be activated is deleted, and a clone is there only where it
/// was taken from a healthy pool and activated.
pub proof fn law_failed_clone_is_deleted(replies: Seq<Reply>)
    ensures
        ({
            let p = CloneVolume::EnsurePool;
            let end = plan::reached(p, replies);
            &&& end == CloneVolume::Failed && plan::manages(p, replies, CloneVolume::Snapshot)
                ==> plan::does(p, replies, CloneVolume::Delete)
            &&& plan::does(p, replies, CloneVolume::Snapshot)
                ==> plan::manages(p, replies, CloneVolume::CheckHealth)
            &&& end == CloneVolume::Done ==> plan::manages(p, replies, CloneVolume::Activate)
        }),
{
    let p = CloneVolume::EnsurePool;
    plan::lemma_way_out(
        p,
        replies,
        plan::managing(CloneVolume::Snapshot),
        |x: CloneVolume|
            x == CloneVolume::Activate || x == CloneVolume::Done || x == CloneVolume::Delete,
        plan::doing(CloneVolume::Delete),
    );
    plan::lemma_way_in(
        p,
        replies,
        |x: CloneVolume|
            x == CloneVolume::RequireId || x == CloneVolume::Snapshot
                || x == CloneVolume::Activate || x == CloneVolume::Delete
                || x == CloneVolume::Done,
        plan::managing(CloneVolume::CheckHealth),
    );
    plan::lemma_way_in(
        p,
        replies,
        |x: CloneVolume| x == CloneVolume::Done,
        plan::managing(CloneVolume::Activate),
    );
}

/// Growing the disk of a VM.
#[derive(Clone, Copy, Debug, PartialEq, Eq, Structural)]
pub enum ResizeVolume {
    /// Make sure that the pool is active.
    EnsurePool,
    /// See that the pool takes writes.
    CheckHealth,
    /// See that the VM has a volume.
    RequireId,
    /// Ask whether the volume is active.
    AskDevice,
    /// Activate it with its old size.
    Activate,
    /// Suspend it.
    Suspend,
    /// Run the command that loads the table with the new size.
    Load,
    /// See that it was loaded.
    CheckLoad,
    /// Resume it with its old size.
    Recover,
    /// Resume it with its new size.
    Resume,
    /// Wait for the device.
    WaitDevice,
    /// Check the file system.
    CheckFs,
    /// Grow the file system.
    GrowFs,
    /// The disk has the new size.
    Done,
    /// It may not.
    Failed,
}

impl Plan for ResizeVolume {
    open spec fn next(self, r: Reply) -> Self {
        match self {
            ResizeVolume::EnsurePool => match r {
                Reply::Error => ResizeVolume::Failed,
                _ => ResizeVolume::CheckHealth,
            },
            ResizeVolume::CheckHealth => match r {
                Reply::Error => ResizeVolume::Failed,
                _ => ResizeVolume::RequireId,
            },
            ResizeVolume::RequireId => match r {
                Reply::Error => ResizeVolume::Failed,
                _ => ResizeVolume::AskDevice,
            },
            ResizeVolume::AskDevice => match r {
                Reply::Yes => ResizeVolume::Suspend,
                Reply::No => ResizeVolume::Activate,
                Reply::Error => ResizeVolume::Failed,
            },
            ResizeVolume::Activate => match r {
                Reply::Error => ResizeVolume::Failed,
                _ => ResizeVolume::Suspend,
            },
            ResizeVolume::Suspend => match r {
                Reply::Error => ResizeVolume::Failed,
                _ => ResizeVolume::Load,
            },
            ResizeVolume::Load => match r {
                Reply::Error => ResizeVolume::Failed,
                _ => ResizeVolume::CheckLoad,
            },
            ResizeVolume::CheckLoad => match r {
                Reply::Error => ResizeVolume::Recover,
                _ => ResizeVolume::Resume,
            },
            ResizeVolume::Recover => ResizeVolume::Failed,
            ResizeVolume::Resume => match r {
                Reply::Error => ResizeVolume::Failed,
                _ => ResizeVolume::WaitDevice,
            },
            ResizeVolume::WaitDevice => match r {
                Reply::Error => ResizeVolume::Failed,
                _ => ResizeVolume::CheckFs,
            },
            ResizeVolume::CheckFs => match r {
                Reply::Error => ResizeVolume::Failed,
                _ => ResizeVolume::GrowFs,
            },
            ResizeVolume::GrowFs => match r {
                Reply::Error => ResizeVolume::Failed,
                _ => ResizeVolume::Done,
            },
            ResizeVolume::Done => ResizeVolume::Done,
            ResizeVolume::Failed => ResizeVolume::Failed,
        }
    }

    open spec fn lenient(self) -> bool {
        self == ResizeVolume::Recover
    }

    open spec fn ended(self) -> bool {
        self == ResizeVolume::Done || self == ResizeVolume::Failed
    }

    open spec fn doomed(self) -> bool {
        self == ResizeVolume::Recover || self == ResizeVolume::Failed
    }

    open spec fn left(self) -> nat {
        match self {
            ResizeVolume::EnsurePool => 12,
            ResizeVolume::CheckHealth => 11,
            ResizeVolume::RequireId => 10,
            ResizeVolume::AskDevice => 9,
            ResizeVolume::Activate => 8,
            ResizeVolume::Suspend => 7,
            ResizeVolume::Load => 6,
            ResizeVolume::CheckLoad => 5,
            ResizeVolume::Recover => 1,
            ResizeVolume::Resume => 4,
            ResizeVolume::WaitDevice => 3,
            ResizeVolume::CheckFs => 2,
            ResizeVolume::GrowFs => 1,
            _ => 0,
        }
    }

    fn step(self, r: Reply) -> (p: Self) {
        match self {
            ResizeVolume::EnsurePool => match r {
                Reply::Error => ResizeVolume::Failed,
                _ => ResizeVolume::CheckHealth,
            },
            ResizeVolume::CheckHealth => match r {
                Reply::Error => ResizeVolume::Failed,
                _ => ResizeVolume::RequireId,
            },
            ResizeVolume::RequireId => match r {
                Reply::Error => ResizeVolume::Failed,
                _ => ResizeVolume::AskDevice,
            },
            ResizeVolume::AskDevice => match r {
                Reply::Yes => ResizeVolume::Suspend,
                Reply::No => ResizeVolume::Activate,
                Reply::Error => ResizeVolume::Failed,
            },
            ResizeVolume::Activate => match r {
                Reply::Error => ResizeVolume::Failed,
                _ => ResizeVolume::Suspend,
            },
            ResizeVolume::Suspend => match r {
                Reply::Error => ResizeVolume::Failed,
                _ => ResizeVolume::Load,
            },
            ResizeVolume::Load => match r {
                Reply::Error => ResizeVolume::Failed,
                _ => ResizeVolume::CheckLoad,
            },
            ResizeVolume::CheckLoad => match r {
                Reply::Error => ResizeVolume::Recover,
                _ => ResizeVolume::Resume,
            },
            ResizeVolume::Recover => ResizeVolume::Failed,
            ResizeVolume::Resume => match r {
                Reply::Error => ResizeVolume::Failed,
                _ => ResizeVolume::WaitDevice,
            },
            ResizeVolume::WaitDevice => match r {
                Reply::Error => ResizeVolume::Failed,
                _ => ResizeVolume::CheckFs,
            },
            ResizeVolume::CheckFs => match r {
                Reply::Error => ResizeVolume::Failed,
                _ => ResizeVolume::GrowFs,
            },
            ResizeVolume::GrowFs => match r {
                Reply::Error => ResizeVolume::Failed,
                _ => ResizeVolume::Done,
            },
            ResizeVolume::Done => ResizeVolume::Done,
            ResizeVolume::Failed => ResizeVolume::Failed,
        }
    }

    fn is_lenient(self) -> (b: bool) {
        match self {
            ResizeVolume::Recover => true,
            _ => false,
        }
    }

    proof fn lemma_ends(self, r: Reply) {
    }
}

/// A file system is grown only after it passed its check, on a device that has the
/// new size; and a device whose new table was handed to the kernel is asked to resume
/// before the work ends.
pub proof fn law_resize_checks_first(replies: Seq<Reply>)
    ensures
        ({
            let p = ResizeVolume::EnsurePool;
            let end = plan::reached(p, replies);
            &&& plan::does(p, replies, ResizeVolume::GrowFs)
                ==> plan::manages(p, replies, ResizeVolume::CheckFs)
            &&& plan::does(p, replies, ResizeVolume::GrowFs)
                ==> plan::manages(p, replies, ResizeVolume::Resume)
            &&& plan::does(p, replies, ResizeVolume::GrowFs)
                ==> plan::manages(p, replies, ResizeVolume::CheckLoad)
            &&& end == ResizeVolume::Done ==> plan::manages(p, replies, ResizeVolume::GrowFs)
            &&& end.ended() && plan::manages(p, replies, ResizeVolume::Load)
                ==> plan::does(p, replies, ResizeVolume::Resume)
                || plan::does(p, replies, ResizeVolume::Recover)
        }),
{
    let p = ResizeVolume::EnsurePool;
    plan::lemma_way_in(
        p,
        replies,
        |x: ResizeVolume| x == ResizeVolume::GrowFs || x == ResizeVolume::Done,
        plan::managing(ResizeVolume::CheckFs),
    );
    plan::lemma_way_in(
        p,
        replies,
        |x: ResizeVolume|
            x == ResizeVolume::WaitDevice || x == ResizeVolume::CheckFs
                || x == ResizeVolume::GrowFs || x == ResizeVolume::Done,
        plan::managing(ResizeVolume::Resume),
    );
    plan::lemma_way_in(
        p,
        replies,
        |x: ResizeVolume|
            x == ResizeVolume::Resume || x == ResizeVolume::WaitDevice
                || x == ResizeVolume::CheckFs || x == ResizeVolume::GrowFs
                || x == ResizeVolume::Done,
        plan::managing(ResizeVolume::CheckLoad),
    );
    plan::lemma_way_in(
        p,
        replies,
        |x: ResizeVolume| x == ResizeVolume::Done,
        plan::managing(ResizeVolume::GrowFs),
    );
    plan::lemma_way_out(
        p,
        replies,
        plan::managing(ResizeVolume::Load),
        |x: ResizeVolume|
            x == ResizeVolume::CheckLoad || x == ResizeVolume::Resume
                || x == ResizeVolume::Recover,
        plan::either(plan::doing(ResizeVolume::Resume), plan::doing(ResizeVolume::Recover)),
    );
    plan::lemma_either(
        p,
        replies,
        plan::doing(ResizeVolume::Resume),
        plan::doing(ResizeVolume::Recover),
    );
}

/// Destroying a volume, as far as it is there. Nothing on the way is a failure.
#[derive(Clone, Copy, Debug, PartialEq, Eq, Structural)]
pub enum DestroyVolume {
    /// Make sure that the pool is active.
    EnsurePool,
    /// Ask whether the volume is active.
    AskDevice,
    /// Take it down.
    Deactivate,
    /// See whether an id is recorded.
    AskId,
    /// Delete the volume.
    Delete,
    /// The volume is gone.
    Done,
}

impl Plan for DestroyVolume {
    open spec fn next(self, r: Reply) -> Self {
        match self {
            DestroyVolume::EnsurePool => DestroyVolume::AskDevice,
            DestroyVolume::AskDevice => match r {
                Reply::Yes => DestroyVolume::Deactivate,
                _ => DestroyVolume::AskId,
            },
            DestroyVolume::Deactivate => DestroyVolume::AskId,
            DestroyVolume::AskId => match r {
                Reply::Yes => DestroyVolume::Delete,
                _ => DestroyVolume::Done,
            },
            DestroyVolume::Delete => DestroyVolume::Done,
            DestroyVolume::Done => DestroyVolume::Done,
        }
    }

    open spec fn lenient(self) -> bool {
        self == DestroyVolume::EnsurePool || self == DestroyVolume::AskDevice
            || self == DestroyVolume::Deactivate || self == DestroyVolume::AskId
            || self == DestroyVolume::Delete
    }

    open spec fn ended(self) -> bool {
        self == DestroyVolume::Done
    }

    open spec fn doomed(self) -> bool {
        false
    }

    open spec fn left(self) -> nat {
        match self {
            DestroyVolume::EnsurePool => 5,
            DestroyVolume::AskDevice => 4,
            DestroyVolume::Deactivate => 3,
            DestroyVolume::AskId => 2,
            DestroyVolume::Delete => 1,
            _ => 0,
        }
    }

    fn step(self, r: Reply) -> (p: Self) {
        match self {
            DestroyVolume::EnsurePool => DestroyVolume::AskDevice,
            DestroyVolume::AskDevice => match r {
                Reply::Yes => DestroyVolume::Deactivate,
                _ => DestroyVolume::AskId,
            },
            DestroyVolume::Deactivate => DestroyVolume::AskId,
            DestroyVolume::AskId => match r {
                Reply::Yes => DestroyVolume::Delete,
                _ => DestroyVolume::Done,
            },
            DestroyVolume::Delete => DestroyVolume::Done,
            DestroyVolume::Done => DestroyVolume::Done,
        }
    }

    fn is_lenient(self) -> (b: bool) {
        match self {
            DestroyVolume::EnsurePool | DestroyVolume::AskDevice | DestroyVolume::Deactivate
            | DestroyVolume::AskId | DestroyVolume::Delete => true,
            _ => false,
        }
    }

    proof fn lemma_ends(self, r: Reply) {
    }
}

/// Destroying a volume never fails.
pub proof fn law_destroying_succeeds(p: DestroyVolume)
    ensures
        p.ended() ==> p == DestroyVolume::Done,
        !p.ended() ==> p.lenient(),
{
}

/// Making sure that the disk of a VM is active.
#[derive(Clone, Copy, Debug, PartialEq, Eq, Structural)]
pub enum OpenVolume {
    /// Make sure that the pool is active.
    EnsurePool,
    /// See that the VM has a volume.
    RequireId,
    /// Ask whether the volume is active.
    AskDevice,
    /// Activate it.
    Activate,
    /// The disk is active.
    Done,
    /// It is not.
    Failed,
}

impl Plan for OpenVolume {
    open spec fn next(self, r: Reply) -> Self {
        match self {
            OpenVolume::EnsurePool => match r {
                Reply::Error => OpenVolume::Failed,
                _ => OpenVolume::RequireId,
            },
            OpenVolume::RequireId => match r {
                Reply::Error => OpenVolume::Failed,
                _ => OpenVolume::AskDevice,
            },
            OpenVolume::AskDevice => match r {
                Reply::Yes => OpenVolume::Done,
                Reply::No => OpenVolume::Activate,
                Reply::Error => OpenVolume::Failed,
            },
            OpenVolume::Activate => match r {
                Reply::Error => OpenVolume::Failed,
                _ => OpenVolume::Done,
            },
            OpenVolume::Done => OpenVolume::Done,
            OpenVolume::Failed => OpenVolume::Failed,
        }
    }

    open spec fn lenient(self) -> bool {
        false
    }

    open spec fn ended(self) -> bool {
        self == OpenVolume::Done || self == OpenVolume::Failed
    }

    open spec fn doomed(self) -> bool {
        self == OpenVolume::Failed
    }

    open spec fn left(self) -> nat {
        match self {
            OpenVolume::EnsurePool => 4,
            OpenVolume::RequireId => 3,
            OpenVolume::AskDevice => 2,
            OpenVolume::Activate => 1,
            _ => 0,
        }
    }

    fn step(self, r: Reply) -> (p: Self) {
        match self {
            OpenVolume::EnsurePool => match r {
                Reply::Error => OpenVolume::Failed,
                _ => OpenVolume::RequireId,
            },
            OpenVolume::RequireId => match r {
                Reply::Error => OpenVolume::Failed,
                _ => OpenVolume::AskDevice,
            },
            OpenVolume::AskDevice => match r {
                Reply::Yes => OpenVolume::Done,
                Reply::No => OpenVolume::Activate,
                Reply::Error => OpenVolume::Failed,
            },
            OpenVolume::Activate => match r {
                Reply::Error => OpenVolume::Failed,
                _ => OpenVolume::Done,
            },
            OpenVolume::Done => OpenVolume::Done,
            OpenVolume::Failed => OpenVolume::Failed,
        }
    }

    fn is_lenient(self) -> (b: bool) {
        false
    }

    proof fn lemma_ends(self, r: Reply) {
    }
}

/// A volume is looked for only in an active pool and where the VM has one; it is
/// activated only where it is not active, and the disk is active only where it was or
/// was activated.
pub proof fn law_open_activates_once(replies: Seq<Reply>)
    ensures
        ({
            let p = OpenVolume::EnsurePool;
            let end = plan::reached(p, replies);
            &&& plan::does(p, replies, OpenVolume::RequireId)
                ==> plan::manages(p, replies, OpenVolume::EnsurePool)
            &&& plan::does(p, replies, OpenVolume::AskDevice)
                || plan::does(p, replies, OpenVolume::Activate)
                ==> plan::manages(p, replies, OpenVolume::RequireId)
            &&& plan::does(p, replies, OpenVolume::Activate)
                ==> plan::gets(p, replies, OpenVolume::AskDevice, Reply::No)
            &&& end == OpenVolume::Done
                ==> plan::gets(p, replies, OpenVolume::AskDevice, Reply::Yes)
                || plan::manages(p, replies, OpenVolume::Activate)
        }),
{
    let p = OpenVolume::EnsurePool;
    plan::lemma_way_in(
        p,
        replies,
        |x: OpenVolume| x != OpenVolume::EnsurePool && x != OpenVolume::Failed,
        plan::managing(OpenVolume::EnsurePool),
    );
    plan::lemma_way_in(
        p,
        replies,
        |x: OpenVolume|
            x == OpenVolume::AskDevice || x == OpenVolume::Activate || x == OpenVolume::Done,
        plan::managing(OpenVolume::RequireId),
    );
    plan::lemma_way_in(
        p,
        replies,
        |x: OpenVolume| x == OpenVolume::Activate,
        plan::getting(OpenVolume::AskDevice, Reply::No),
    );
    plan::lemma_way_in(
        p,
        replies,
        |x: OpenVolume| x == OpenVolume::Done,
        plan::either(plan::getting(OpenVolume::AskDevice, Reply::Yes), plan::managing(OpenVolume::Activate)),
    );
    plan::lemma_either(
        p,
        replies,
        plan::getting(OpenVolume::AskDevice, Reply::Yes),
        plan::managing(OpenVolume::Activate),
    );
}

/// Taking a pool down.
#[derive(Clone, Copy, Debug, PartialEq, Eq, Structural)]
pub enum Teardown {
    /// Take the image devices down, as far as that works.
    DropImages,
    /// Take the VM devices down, as far as that works.
    DropDisks,
    /// Ask whether the pool is active.
    AskPool,
    /// Take the pool down.
    RemovePool,
    /// Look for the loop device of the metadata.
    FindMetadata,
    /// Detach it.
    DetachMetadata,
    /// Look for the loop device of the data.
    FindData,
    /// Detach it.
    DetachData,
    /// See whether the files are to be removed.
    AskPurge,
    /// Remove the metadata, if it is a regular file.
    RemoveMetadata,
    /// Remove the data, if it is a regular file.
    RemoveData,
    /// Remove the directory, if it is one.
    RemoveDir,
    /// The pool is down.
    Done,
    /// It may not be.
    Failed,
}

impl Plan for Teardown {
    open spec fn next(self, r: Reply) -> Self {
        match self {
            Teardown::DropImages => match r {
                Reply::Error => Teardown::Failed,
                _ => Teardown::DropDisks,
            },
            Teardown::DropDisks => match r {
                Reply::Error => Teardown::Failed,
                _ => Teardown::AskPool,
            },
            Teardown::AskPool => match r {
                Reply::Yes => Teardown::RemovePool,
                Reply::No => Teardown::FindMetadata,
                Reply::Error => Teardown::Failed,
            },
            Teardown::RemovePool => match r {
                Reply::Error => Teardown::Failed,
                _ => Teardown::FindMetadata,
            },
            Teardown::FindMetadata => match r {
                Reply::Yes => Teardown::DetachMetadata,
                Reply::No => Teardown::FindData,
                Reply::Error => Teardown::Failed,
            },
            Teardown::DetachMetadata => Teardown::FindData,
            Teardown::FindData => match r {
                Reply::Yes => Teardown::DetachData,
                Reply::No => Teardown::AskPurge,
                Reply::Error => Teardown::Failed,
            },
            Teardown::DetachData => Teardown::AskPurge,
            Teardown::AskPurge => match r {
                Reply::Yes => Teardown::RemoveMetadata,
                _ => Teardown::Done,
            },
            Teardown::RemoveMetadata => Teardown::RemoveData,
            Teardown::RemoveData => Teardown::RemoveDir,
            Teardown::RemoveDir => Teardown::Done,
            Teardown::Done => Teardown::Done,
            Teardown::Failed => Teardown::Failed,
        }
    }

    open spec fn lenient(self) -> bool {
        self == Teardown::DetachMetadata || self == Teardown::DetachData
            || self == Teardown::AskPurge || self == Teardown::RemoveMetadata
            || self == Teardown::RemoveData || self == Teardown::RemoveDir
    }

    open spec fn ended(self) -> bool {
        self == Teardown::Done || self == Teardown::Failed
    }

    open spec fn doomed(self) -> bool {
        self == Teardown::Failed
    }

    open spec fn left(self) -> nat {
        match self {
            Teardown::DropImages => 12,
            Teardown::DropDisks => 11,
            Teardown::AskPool => 10,
            Teardown::RemovePool => 9,
            Teardown::FindMetadata => 8,
            Teardown::DetachMetadata => 7,
            Teardown::FindData => 6,
            Teardown::DetachData => 5,
            Teardown::AskPurge => 4,
            Teardown::RemoveMetadata => 3,
            Teardown::RemoveData => 2,
            Teardown::RemoveDir => 1,
            _ => 0,
        }
    }

    fn step(self, r: Reply) -> (p: Self) {
        match self {
            Teardown::DropImages => match r {
                Reply::Error => Teardown::Failed,
                _ => Teardown::DropDisks,
            },
            Teardown::DropDisks => match r {
                Reply::Error => Teardown::Failed,
                _ => Teardown::AskPool,
            },
            Teardown::AskPool => match r {
                Reply::Yes => Teardown::RemovePool,
                Reply::No => Teardown::FindMetadata,
                Reply::Error => Teardown::Failed,
            },
            Teardown::RemovePool => match r {
                Reply::Error => Teardown::Failed,
                _ => Teardown::FindMetadata,
            },
            Teardown::FindMetadata => match r {
                Reply::Yes => Teardown::DetachMetadata,
                Reply::No => Teardown::FindData,
                Reply::Error => Teardown::Failed,
            },
            Teardown::DetachMetadata => Teardown::FindData,
            Teardown::FindData => match r {
                Reply::Yes => Teardown::DetachData,
                Reply::No => Teardown::AskPurge,
                Reply::Error => Teardown::Failed,
            },
            Teardown::DetachData => Teardown::AskPurge,
            Teardown::AskPurge => match r {
                Reply::Yes => Teardown::RemoveMetadata,
                _ => Teardown::Done,
            },
            Teardown::RemoveMetadata => Teardown::RemoveData,
            Teardown::RemoveData => Teardown::RemoveDir,
            Teardown::RemoveDir => Teardown::Done,
            Teardown::Done => Teardown::Done,
            Teardown::Failed => Teardown::Failed,
        }
    }

    fn is_lenient(self) -> (b: bool) {
        match self {
            Teardown::DetachMetadata | Teardown::DetachData | Teardown::AskPurge
            | Teardown::RemoveMetadata | Teardown::RemoveData | Teardown::RemoveDir => true,
            _ => false,
        }
    }

    proof fn lemma_ends(self, r: Reply) {
    }
}

/// Nothing is removed unless that is asked for, and not before the pool is down and
/// every volume of it was dropped.
pub proof fn law_teardown_keeps_files(replies: Seq<Reply>)
    ensures
        ({
            let p = Teardown::DropImages;
            let end = plan::reached(p, replies);
            &&& plan::does(p, replies, Teardown::RemoveMetadata)
                || plan::does(p, replies, Teardown::RemoveData)
                || plan::does(p, replies, Teardown::RemoveDir)
                ==> plan::gets(p, replies, Teardown::AskPurge, Reply::Yes)
            &&& plan::does(p, replies, Teardown::RemoveMetadata)
                || plan::does(p, replies, Teardown::RemoveData)
                || plan::does(p, replies, Teardown::RemoveDir)
                ==> plan::gets(p, replies, Teardown::AskPool, Reply::No)
                || plan::manages(p, replies, Teardown::RemovePool)
            &&& plan::does(p, replies, Teardown::RemoveMetadata)
                || plan::does(p, replies, Teardown::RemoveData)
                || plan::does(p, replies, Teardown::RemoveDir)
                ==> plan::manages(p, replies, Teardown::DropDisks)
            &&& plan::does(p, replies, Teardown::RemoveMetadata)
                || plan::does(p, replies, Teardown::RemoveData)
                || plan::does(p, replies, Teardown::RemoveDir)
                ==> plan::manages(p, replies, Teardown::DropImages)
        }),
{
    let p = Teardown::DropImages;
    plan::lemma_way_in(
        p,
        replies,
        |x: Teardown|
            x == Teardown::RemoveMetadata || x == Teardown::RemoveData
                || x == Teardown::RemoveDir,
        plan::getting(Teardown::AskPurge, Reply::Yes),
    );
    plan::lemma_way_in(
        p,
        replies,
        |x: Teardown|
            x != Teardown::DropImages && x != Teardown::DropDisks && x != Teardown::AskPool
                && x != Teardown::RemovePool && x != Teardown::Failed,
        plan::either(plan::getting(Teardown::AskPool, Reply::No), plan::managing(Teardown::RemovePool)),
    );
    plan::lemma_either(
        p,
        replies,
        plan::getting(Teardown::AskPool, Reply::No),
        plan::managing(Teardown::RemovePool),
    );
    plan::lemma_way_in(
        p,
        replies,
        |x: Teardown|
            x != Teardown::DropImages && x != Teardown::DropDisks && x != Teardown::Failed,
        plan::managing(Teardown::DropDisks),
    );
    plan::lemma_way_in(
        p,
        replies,
        |x: Teardown| x != Teardown::DropImages && x != Teardown::Failed,
        plan::managing(Teardown::DropImages),
    );
}

/// Growing a pool in files.
#[derive(Clone, Copy, Debug, PartialEq, Eq, Structural)]
pub enum Grow {
    /// Make sure that the pool is active.
    EnsurePool,
    /// See that the data is in a regular file.
    AskDataFile,
    /// See that it would not shrink.
    RequireGrowth,
    /// Extend the data file.
    Extend,
    /// Look for the loop device of the metadata.
    FindMetadata,
    /// Look for the loop device of the data.
    FindData,
    /// Make it see the new size.
    Refresh,
    /// Measure the data device.
    MeasureData,
    /// Suspend the pool.
    Suspend,
    /// Run the command that loads the table with the new size.
    Load,
    /// See that it was loaded.
    CheckLoad,
    /// Resume the pool with its old size.
    Recover,
    /// Resume the pool with its new size.
    Resume,
    /// The pool has grown.
    Done,
    /// It has not.
    Failed,
}

impl Plan for Grow {
    open spec fn next(self, r: Reply) -> Self {
        match self {
            Grow::EnsurePool => match r {
                Reply::Error => Grow::Failed,
                _ => Grow::AskDataFile,
            },
            Grow::AskDataFile => match r {
                Reply::Error => Grow::Failed,
                _ => Grow::RequireGrowth,
            },
            Grow::RequireGrowth => match r {
                Reply::Error => Grow::Failed,
                _ => Grow::Extend,
            },
            Grow::Extend => match r {
                Reply::Error => Grow::Failed,
                _ => Grow::FindMetadata,
            },
            Grow::FindMetadata => match r {
                Reply::Error => Grow::Failed,
                _ => Grow::FindData,
            },
            Grow::FindData => match r {
                Reply::Error => Grow::Failed,
                _ => Grow::Refresh,
            },
            Grow::Refresh => match r {
                Reply::Error => Grow::Failed,
                _ => Grow::MeasureData,
            },
            Grow::MeasureData => match r {
                Reply::Error => Grow::Failed,
                _ => Grow::Suspend,
            },
            Grow::Suspend => match r {
                Reply::Error => Grow::Failed,
                _ => Grow::Load,
            },
            Grow::Load => match r {
                Reply::Error => Grow::Failed,
                _ => Grow::CheckLoad,
            },
            Grow::CheckLoad => match r {
                Reply::Error => Grow::Recover,
                _ => Grow::Resume,
            },
            Grow::Recover => Grow::Failed,
            Grow::Resume => match r {
                Reply::Error => Grow::Failed,
                _ => Grow::Done,
            },
            Grow::Done => Grow::Done,
            Grow::Failed => Grow::Failed,
        }
    }

    open spec fn lenient(self) -> bool {
        self == Grow::Recover
    }

    open spec fn ended(self) -> bool {
        self == Grow::Done || self == Grow::Failed
    }

    open spec fn doomed(self) -> bool {
        self == Grow::Recover || self == Grow::Failed
    }

    open spec fn left(self) -> nat {
        match self {
            Grow::EnsurePool => 12,
            Grow::AskDataFile => 11,
            Grow::RequireGrowth => 10,
            Grow::Extend => 9,
            Grow::FindMetadata => 8,
            Grow::FindData => 7,
            Grow::Refresh => 6,
            Grow::MeasureData => 5,
            Grow::Suspend => 4,
            Grow::Load => 3,
            Grow::CheckLoad => 2,
            Grow::Recover => 1,
            Grow::Resume => 1,
            _ => 0,
        }
    }

    fn step(self, r: Reply) -> (p: Self) {
        match self {
            Grow::EnsurePool => match r {
                Reply::Error => Grow::Failed,
                _ => Grow::AskDataFile,
            },
            Grow::AskDataFile => match r {
                Reply::Error => Grow::Failed,
                _ => Grow::RequireGrowth,
            },
            Grow::RequireGrowth => match r {
                Reply::Error => Grow::Failed,
                _ => Grow::Extend,
            },
            Grow::Extend => match r {
                Reply::Error => Grow::Failed,
                _ => Grow::FindMetadata,
            },
            Grow::FindMetadata => match r {
                Reply::Error => Grow::Failed,
                _ => Grow::FindData,
            },
            Grow::FindData => match r {
                Reply::Error => Grow::Failed,
                _ => Grow::Refresh,
            },
            Grow::Refresh => match r {
                Reply::Error => Grow::Failed,
                _ => Grow::MeasureData,
            },
            Grow::MeasureData => match r {
                Reply::Error => Grow::Failed,
                _ => Grow::Suspend,
            },
            Grow::Suspend => match r {
                Reply::Error => Grow::Failed,
                _ => Grow::Load,
            },
            Grow::Load => match r {
                Reply::Error => Grow::Failed,
                _ => Grow::CheckLoad,
            },
            Grow::CheckLoad => match r {
                Reply::Error => Grow::Recover,
                _ => Grow::Resume,
            },
            Grow::Recover => Grow::Failed,
            Grow::Resume => match r {
                Reply::Error => Grow::Failed,
                _ => Grow::Done,
            },
            Grow::Done => Grow::Done,
            Grow::Failed => Grow::Failed,
        }
    }

    fn is_lenient(self) -> (b: bool) {
        match self {
            Grow::Recover => true,
            _ => false,
        }
    }

    proof fn lemma_ends(self, r: Reply) {
    }
}

/// A pool whose new table was handed to the kernel is asked to resume before the work
/// ends; the data is measured after the device has seen the new size; and only a
/// regular file is extended.
pub proof fn law_grow_resumes(replies: Seq<Reply>)
    ensures
        ({
            let p = Grow::EnsurePool;
            let end = plan::reached(p, replies);
            &&& end.ended() && plan::manages(p, replies, Grow::Load)
                ==> plan::does(p, replies, Grow::Resume)
                || plan::does(p, replies, Grow::Recover)
            &&& plan::does(p, replies, Grow::MeasureData)
                ==> plan::manages(p, replies, Grow::Refresh)
            &&& plan::does(p, replies, Grow::Extend)
                ==> plan::manages(p, replies, Grow::AskDataFile)
            &&& end == Grow::Done ==> plan::manages(p, replies, Grow::CheckLoad)
            &&& end == Grow::Done ==> plan::manages(p, replies, Grow::Resume)
        }),
{
    let p = Grow::EnsurePool;
    plan::lemma_way_out(
        p,
        replies,
        plan::managing(Grow::Load),
        |x: Grow| x == Grow::CheckLoad || x == Grow::Resume || x == Grow::Recover,
        plan::either(plan::doing(Grow::Resume), plan::doing(Grow::Recover)),
    );
    plan::lemma_either(p, replies, plan::doing(Grow::Resume), plan::doing(Grow::Recover));
    plan::lemma_way_in(
        p,
        replies,
        |x: Grow|
            x != Grow::EnsurePool && x != Grow::AskDataFile && x != Grow::RequireGrowth
                && x != Grow::Extend && x != Grow::FindMetadata && x != Grow::FindData
                && x != Grow::Refresh && x != Grow::Failed,
        plan::managing(Grow::Refresh),
    );
    plan::lemma_way_in(
        p,
        replies,
        |x: Grow| x != Grow::EnsurePool && x != Grow::AskDataFile && x != Grow::Failed,
        plan::managing(Grow::AskDataFile),
    );
    plan::lemma_way_in(
        p,
        replies,
        |x: Grow| x == Grow::Resume || x == Grow::Done,
        plan::managing(Grow::CheckLoad),
    );
    plan::lemma_way_in(p, replies, |x: Grow| x == Grow::Done, plan::managing(Grow::Resume));
}

/// Growing never shortens the data: the file, `current` long, is extended only
/// where the growth was found to be one, which [`require_pool_growth`] says of a
/// size that is at least as large. So the pool covers no fewer sectors than before.
pub proof fn law_grow_never_shortens(replies: Seq<Reply>, current: u64, new_size: ByteSize)
    requires
        plan::manages(Grow::EnsurePool, replies, Grow::RequireGrowth) ==> new_size.count >= current,
    ensures
        plan::does(Grow::EnsurePool, replies, Grow::Extend) ==> new_size.count >= current
            && new_size.count / 512 >= current / 512,
{
    plan::lemma_way_in(
        Grow::EnsurePool,
        replies,
        |x: Grow|
            x != Grow::EnsurePool && x != Grow::AskDataFile && x != Grow::RequireGrowth
                && x != Grow::Failed,
        plan::managing(Grow::RequireGrowth),
    );
}

/// See that the data of a pool that is to grow is in a regular file: a block
/// device is grown from outside.
pub fn require_data_file(data_path: &str, is_file: bool) -> (r: Result<bool, Error>)
    ensures
        match r {
            Ok(b) => is_file && b,
            Err(e) => !is_file && error::is_config(
                e,
                "data device "@ + data_path@
                    + " is a raw block device — grow it externally first (e.g. lvextend, cloud-volume resize) and then re-run `ember storage grow`"@,
            ),
        },
{
    if is_file {
        Ok(true)
    } else {
        Err(
            Error::Config(
                text::cat3(
                    "data device ",
                    data_path,
                    " is a raw block device — grow it externally first (e.g. lvextend, cloud-volume resize) and then re-run `ember storage grow`",
                ),
            ),
        )
    }
}

/// See that a pool would not shrink: `current` is how long its data file is now.
pub fn require_pool_growth(current: u64, new_size: ByteSize) -> (r: Result<bool, Error>)
    ensures
        match r {
            Ok(b) => b && new_size.count >= current,
            Err(e) => new_size.count < current && error::is_config(
                e,
                "cannot shrink dm-thin pool data device from "@ + text::dec(current as nat)
                    + " to "@ + text::dec(new_size.count as nat) + " bytes"@,
            ),
        },
{
    if new_size.bytes() < current {
        return Err(
            Error::Config(
                text::cat5(
                    "cannot shrink dm-thin pool data device from ",
                    text::dec_u64(current).as_str(),
                    " to ",
                    text::dec_u64(new_size.bytes()).as_str(),
                    " bytes",
                ),
            ),
        );
    }
    Ok(true)
}

/// See that a file has a loop device. `what` says what the file holds.
pub fn require_loop(what: &str, path: &str, found: Option<String>) -> (r: Result<String, Error>)
    ensures
        match r {
            Ok(d) => found == Some(d),
            Err(e) => found is None && error::is_config(
                e,
                what@ + " device "@ + path@ + " is not attached to a loop device"@,
            ),
        },
{
    match found {
        Some(d) => Ok(d),
        None => Err(
            Error::Config(
                text::cat4(what, " device ", path, " is not attached to a loop device"),
            ),
        ),
    }
}

/// Mounting a disk on a new directory.
#[derive(Clone, Copy, Debug, PartialEq, Eq, Structural)]
pub enum MountDisk {
    /// Wait for the device.
    WaitDevice,
    /// Make the directory.
    MakeDir,
    /// Run the command that mounts the disk there.
    Mount,
    /// See that it is mounted.
    CheckMount,
    /// Remove the directory after a failure.
    RemoveDir,
    /// The disk is mounted.
    Mounted,
    /// It is not.
    Failed,
}

impl Plan for MountDisk {
    open spec fn next(self, r: Reply) -> Self {
        match self {
            MountDisk::WaitDevice => match r {
                Reply::Error => MountDisk::Failed,
                _ => MountDisk::MakeDir,
            },
            MountDisk::MakeDir => match r {
                Reply::Error => MountDisk::Failed,
                _ => MountDisk::Mount,
            },
            MountDisk::Mount => match r {
                Reply::Error => MountDisk::Failed,
                _ => MountDisk::CheckMount,
            },
            MountDisk::CheckMount => match r {
                Reply::Error => MountDisk::RemoveDir,
                _ => MountDisk::Mounted,
            },
            MountDisk::RemoveDir => MountDisk::Failed,
            MountDisk::Mounted => MountDisk::Mounted,
            MountDisk::Failed => MountDisk::Failed,
        }
    }

    open spec fn lenient(self) -> bool {
        self == MountDisk::RemoveDir
    }

    open spec fn ended(self) -> bool {
        self == MountDisk::Mounted || self == MountDisk::Failed
    }

    open spec fn doomed(self) -> bool {
        self == MountDisk::RemoveDir || self == MountDisk::Failed
    }

    open spec fn left(self) -> nat {
        match self {
            MountDisk::WaitDevice => 5,
            MountDisk::MakeDir => 4,
            MountDisk::Mount => 3,
            MountDisk::CheckMount => 2,
            MountDisk::RemoveDir => 1,
            _ => 0,
        }
    }

    fn step(self, r: Reply) -> (p: Self) {
        match self {
            MountDisk::WaitDevice => match r {
                Reply::Error => MountDisk::Failed,
                _ => MountDisk::MakeDir,
            },
            MountDisk::MakeDir => match r {
                Reply::Error => MountDisk::Failed,
                _ => MountDisk::Mount,
            },
            MountDisk::Mount => match r {
                Reply::Error => MountDisk::Failed,
                _ => MountDisk::CheckMount,
            },
            MountDisk::CheckMount => match r {
                Reply::Error => MountDisk::RemoveDir,
                _ => MountDisk::Mounted,
            },
            MountDisk::RemoveDir => MountDisk::Failed,
            MountDisk::Mounted => MountDisk::Mounted,
            MountDisk::Failed => MountDisk::Failed,
        }
    }

    fn is_lenient(self) -> (b: bool) {
        match self {
            MountDisk::RemoveDir => true,
            _ => false,
        }
    }

    proof fn lemma_ends(self, r: Reply) {
    }
}

/// A directory on which the kernel refused to mount the disk is removed, and the disk
/// is mounted only where it did not.
pub proof fn law_refused_mount_leaves_no_directory(replies: Seq<Reply>)
    ensures
        ({
            let p = MountDisk::WaitDevice;
            let end = plan::reached(p, replies);
            &&& end == MountDisk::Failed && plan::manages(p, replies, MountDisk::Mount)
                ==> plan::does(p, replies, MountDisk::RemoveDir)
            &&& end == MountDisk::Mounted ==> plan::manages(p, replies, MountDisk::CheckMount)
        }),
{
    let p = MountDisk::WaitDevice;
    plan::lemma_way_out(
        p,
        replies,
        plan::managing(MountDisk::Mount),
        |x: MountDisk|
            x == MountDisk::CheckMount || x == MountDisk::Mounted
                || x == MountDisk::RemoveDir,
        plan::doing(MountDisk::RemoveDir),
    );
    plan::lemma_way_in(
        p,
        replies,
        |x: MountDisk| x == MountDisk::Mounted,
        plan::managing(MountDisk::CheckMount),
    );
}

// ------------------------------------------------------------------ commands

/// Creates a sparse file of the given size, or changes the size of one.
pub fn create_sparse_file(path: &str, size_bytes: u64) -> (r: Cmd)
    ensures
        r@ == command::cmd(
            "truncate"@,
            seq!["-s"@, text::dec(size_bytes as nat), path@],
            "truncate"@,
            "truncate"@,
        ),
        deeds::truncate(r@) == Some(Deed::Lengthen { length: text::dec(size_bytes as nat), file: path@ }),
{
    let n = text::dec_u64(size_bytes);
    let r = command::command("truncate", &["-s", n.as_str(), path], "truncate", "truncate");
    assert(r@.args =~= seq!["-s"@, text::dec(size_bytes as nat), path@]);
    r
}

/// Zeroes the first 4 KiB of a file or device, without changing its size.
pub fn zero_head(path: &str) -> (r: Cmd)
    ensures
        r@ == command::cmd(
            "dd"@,
            seq![
                "if=/dev/zero"@,
                "of="@ + path@,
                "bs=4K"@,
                "count=1"@,
                "conv=notrunc"@,
                "status=none"@,
            ],
            "dd zero metadata"@,
            "dd zero metadata"@,
        ),
        deeds::copies_bytes(r@, "/dev/zero"@, path@),
        r@.args.contains("count=1"@) && r@.args.contains("bs=4K"@),
        r@.args.contains("conv=notrunc"@),
{
    let of = text::cat2("of=", path);
    let r = command::command(
        "dd",
        &["if=/dev/zero", of.as_str(), "bs=4K", "count=1", "conv=notrunc", "status=none"],
        "dd zero metadata",
        "dd zero metadata",
    );
    proof {
        reveal_strlit("if=/dev/zero");
        reveal_strlit("if=");
        reveal_strlit("/dev/zero");
        assert("if="@ + "/dev/zero"@ =~= "if=/dev/zero"@);
        assert(r@.args[2] == "bs=4K"@ && r@.args[3] == "count=1"@ && r@.args[4] == "conv=notrunc"@);
    }
    assert(r@.args =~= seq![
        "if=/dev/zero"@,
        "of="@ + path@,
        "bs=4K"@,
        "count=1"@,
        "conv=notrunc"@,
        "status=none"@,
    ]);
    r
}

/// Copies an image file onto a device.
pub fn dd_image(image_path: &str, device: &str) -> (r: Cmd)
    ensures
        r@ == command::cmd(
            "dd"@,
            seq![
                "if="@ + image_path@,
                "of="@ + device@,
                "bs=1M"@,
                "conv=fsync"@,
                "status=none"@,
            ],
            "dd image to thin"@,
            "dd image to thin"@,
        ),
        deeds::copies_bytes(r@, image_path@, device@),
        r@.args.contains("conv=fsync"@),
{
    let i = text::cat2("if=", image_path);
    let o = text::cat2("of=", device);
    let r = command::command(
        "dd",
        &[i.as_str(), o.as_str(), "bs=1M", "conv=fsync", "status=none"],
        "dd image to thin",
        "dd image to thin",
    );
    assert(r@.args[3] == "conv=fsync"@);
    assert(r@.args =~= seq![
        "if="@ + image_path@,
        "of="@ + device@,
        "bs=1M"@,
        "conv=fsync"@,
        "status=none"@,
    ]);
    r
}

/// Asks for the size of a block device in bytes.
pub fn measure_device(path: &str) -> (r: Cmd)
    ensures
        r@ == command::cmd("blockdev"@, seq!["--getsize64"@, path@], "blockdev --getsize64"@, "blockdev --getsize64"@),
        deeds::blockdev(r@) == Some(Deed::Measure { device: path@ }),
{
    let r = command::command("blockdev", &["--getsize64", path], "blockdev --getsize64", "blockdev --getsize64");
    assert(r@.args =~= seq!["--getsize64"@, path@]);
    r
}

/// Reads the answer to [`measure_device`].
pub fn device_size_bytes(stdout: &str) -> (r: Result<u64, Error>)
    ensures
        match r {
            Ok(n) => text::parse_uint(text::trim(stdout@), u64::MAX as nat) == Ok::<
                nat,
                text::IntError,
            >(n as nat),
            Err(e) => text::parse_uint(text::trim(stdout@), u64::MAX as nat) is Err
                && pool::is_complaint(
                e,
                "blockdev --getsize64"@,
                "non-numeric "@ + "size"@ + " "@ + dm_thin::debug_text(text::trim(stdout@)) + ": "@
                    + text::parse_uint(text::trim(stdout@), u64::MAX as nat)->Err_0.text(),
            ),
        },
{
    tools::parse_number("blockdev --getsize64", "size", stdout)
}

/// Size of a device in whole sectors.
pub fn device_sectors(size_bytes: u64) -> (r: u64)
    ensures
        r == size_bytes / 512,
        r * 512 <= size_bytes < (r + 1) * 512,
{
    size_bytes / 512
}

/// Checks a file system before it is resized.
pub fn e2fsck(device: &str) -> (r: Cmd)
    ensures
        r@ == command::cmd("e2fsck"@, seq!["-f"@, "-p"@, device@], "e2fsck"@, "e2fsck"@),
        deeds::fsck(r@) == Some(Deed::Preen { device: device@ }),
{
    proof {
        deeds::lemma_fsck();
    }
    let r = command::command("e2fsck", &["-f", "-p", device], "e2fsck", "e2fsck");
    assert(r@.args =~= seq!["-f"@, "-p"@, device@]);
    r
}

/// Whether a file system passed [`e2fsck`]: exit code one says that errors were
/// corrected.
pub fn fsck_passed(c: &Cmd, o: Outcome) -> (r: Result<(), Error>)
    ensures
        match o {
            Outcome::NotSpawned(_) => r is Err && command::is_error_of(r->Err_0, c@, o),
            Outcome::Exited(out) => match r {
                Ok(_) => out.code_or_minus_one() < 2,
                Err(e) => out.code_or_minus_one() >= 2 && command::is_error_of(e, c@, o),
            },
        },
{
    match o {
        Outcome::NotSpawned(why) => Err(
            Error::CommandExec { command: c.spawn_label.clone(), source: why },
        ),
        Outcome::Exited(out) => {
            let code: i32 = match out.exit_code {
                Some(n) => n,
                None => -1,
            };
            if code >= 2 {
                Err(
                    Error::Command {
                        command: c.label.clone(),
                        exit_code: code,
                        stderr: text::trimmed(text::from_utf8_lossy(&out.stderr).as_str()),
                    },
                )
            } else {
                Ok(())
            }
        },
    }
}

/// Grows a file system to the size of its device.
pub fn resize2fs(device: &str) -> (r: Cmd)
    ensures
        r@ == command::cmd("resize2fs"@, seq![device@], "resize2fs"@, "resize2fs"@),
        deeds::resize2fs(r@) == Some(Deed::Fill { device: device@ }),
{
    let r = command::command("resize2fs", &[device], "resize2fs", "resize2fs");
    assert(r@.args =~= seq![device@]);
    r
}

/// Mounts a device on a directory.
pub fn mount_command(device: &str, dir: &str) -> (r: Cmd)
    ensures
        r@ == command::cmd("mount"@, seq![device@, dir@], "mount"@, "mount"@),
        deeds::mount(r@) == Some(Deed::Mount { device: device@, dir: dir@ }),
{
    let r = command::command("mount", &[device, dir], "mount", "mount");
    assert(r@.args =~= seq![device@, dir@]);
    r
}

// -------------------------------------------------------------------- sizes

/// `n / d`, rounded to the nearest integer, halves to the even one.
pub open spec fn half_even(n: nat, d: nat) -> nat {
    let q = n / d;
    let r = n % d;
    if 2 * r < d || (2 * r == d && q % 2 == 0) {
        q
    } else {
        q + 1
    }
}

/// How many low bits of a number do not fit a double.
pub open spec fn surplus_bits(n: nat) -> nat
    decreases n,
{
    if n < 0x20_0000_0000_0000 {
        0
    } else {
        1 + surplus_bits(n / 2)
    }
}

/// The double nearest to a number.
pub open spec fn as_double(n: nat) -> nat {
    let p = vstd::arithmetic::power2::pow2(surplus_bits(n));
    half_even(n, p) * p
}

/// `n` units of size `unit`, with one decimal.
pub open spec fn one_decimal(n: nat, unit: nat) -> Seq<char> {
    let t = half_even(10 * as_double(n), unit);
    text::dec(t / 10) + "."@ + text::dec(t % 10)
}

/// A byte count for people.
pub open spec fn bytes_text(n: nat) -> Seq<char> {
    if n >= 0x100_0000_0000 {
        one_decimal(n, 0x100_0000_0000) + " TiB"@
    } else if n >= 0x4000_0000 {
        one_decimal(n, 0x4000_0000) + " GiB"@
    } else if n >= 0x10_0000 {
        one_decimal(n, 0x10_0000) + " MiB"@
    } else {
        text::dec(n) + " B"@
    }
}

fn divide_half_even(n: u128, d: u128) -> (r: u128)
    requires
        0 < d <= 0x1_0000_0000_0000_0000,
        n <= 0x1_0000_0000_0000_0000_0000,
    ensures
        r == half_even(n as nat, d as nat),
        r <= n / d + 1,
{
    let q: u128 = n / d;
    let m: u128 = n % d;
    if 2 * m < d || (2 * m == d && q % 2 == 0) {
        q
    } else {
        q + 1
    }
}

fn nearest_double(n: u64) -> (r: u128)
    ensures
        r == as_double(n as nat),
        r <= 0x1_0000_0000_0000_0000,
{
    let mut m: u64 = n;
    let mut p: u64 = 1;
    let ghost mut s: nat = 0;
    proof {
        vstd::arithmetic::power2::lemma2_to64();
    }
    while m >= 0x20_0000_0000_0000
        invariant
            s + surplus_bits(m as nat) == surplus_bits(n as nat),
            p == vstd::arithmetic::power2::pow2(s),
            m * p <= n,
            1 <= p <= 0x800,
            s <= 11,
            vstd::arithmetic::power2::pow2(11) == 0x800,
        decreases m,
    {
        proof {
            vstd::arithmetic::power2::lemma_pow2_unfold(s + 1);
            assert((m / 2) * (2 * p) <= m * p) by (nonlinear_arith);
            assert(p < 0x800) by (nonlinear_arith)
                requires
                    m >= 0x20_0000_0000_0000,
                    m * p <= n,
                    n <= 0xffff_ffff_ffff_ffff,
            ;
            assert(s < 11);
            if s + 1 < 11 {
                vstd::arithmetic::power2::lemma_pow2_strictly_increases(s + 1, 11);
            }
            s = s + 1;
        }
        m = m / 2;
        p = p * 2;
    }
    let q: u128 = divide_half_even(n as u128, p as u128);
    proof {
        let nn = n as int;
        let pp = p as int;
        assert(nn / pp * pp <= nn) by (nonlinear_arith)
            requires
                pp > 0,
                nn >= 0,
        ;
        lemma_nearest_bound(n as nat, p as nat);
        assert(q * p == as_double(n as nat));
        assert(q <= 0x1_0000_0000_0000_0000) by (nonlinear_arith)
            requires
                q * p <= 0x1_0000_0000_0000_0000,
                p >= 1,
        ;
    }
    q * p as u128
}

/// Rounding to a multiple of a power of two does not lead past one of its
/// multiples.
proof fn lemma_nearest_bound(n: nat, p: nat)
    requires
        n <= u64::MAX,
        1 <= p <= 0x800,
        exists|s: nat| s <= 11 && p == #[trigger] vstd::arithmetic::power2::pow2(s),
    ensures
        half_even(n, p) * p <= 0x1_0000_0000_0000_0000,
{
    let s = choose|s: nat| s <= 11 && p == #[trigger] vstd::arithmetic::power2::pow2(s);
    let k = vstd::arithmetic::power2::pow2((64 - s) as nat);
    vstd::arithmetic::power2::lemma_pow2_adds(s, (64 - s) as nat);
    vstd::arithmetic::power2::lemma2_to64_rest();
    assert(p * k == 0x1_0000_0000_0000_0000);
    let q = n / p;
    assert(n == p * q + n % p) by {
        vstd::arithmetic::div_mod::lemma_fundamental_div_mod(n as int, p as int);
    }
    assert(q < k) by (nonlinear_arith)
        requires
            n == p * q + n % p,
            n < p * k,
            p > 0,
            n % p >= 0,
    ;
    assert((q + 1) * p <= p * k) by (nonlinear_arith)
        requires
            q < k,
            p > 0,
    ;
    assert(q * p <= p * k) by (nonlinear_arith)
        requires
            q < k,
            p > 0,
    ;
}

fn decimal(n: u64, unit: u64) -> (r: String)
    requires
        unit > 0,
    ensures
        r@ == one_decimal(n as nat, unit as nat),
{
    let d: u128 = nearest_double(n);
    let t: u128 = divide_half_even(10 * d, unit as u128);
    let (a, b): (u128, u128) = (t / 10, t % 10);
    proof {
        let num = (10 * d) as int;
        let u = unit as int;
        assert(num / u <= num) by (nonlinear_arith)
            requires
                num >= 0,
                u >= 1,
        ;
    }
    let head = dec_u128(a);
    let tail = dec_u128(b);
    text::cat3(head.as_str(), ".", tail.as_str())
}

fn dec_u128(n: u128) -> (s: String)
    ensures
        s@ == text::dec(n as nat),
    decreases n,
{
    if n <= 0xffff_ffff_ffff_ffff {
        text::dec_u64(n as u64)
    } else {
        let mut s = dec_u128(n / 10);
        let d: u64 = (n % 10) as u64;
        s.append(text::dec_u64(d).as_str());
        proof {
            assert(text::dec(d as nat) =~= seq![text::digit_char(d as nat)]);
            assert(s@ =~= text::dec(n as nat));
        }
        s
    }
}

/// A byte count for people: with one decimal in the largest unit that fits.
pub fn format_bytes(bytes: u64) -> (r: String)
    ensures
        r@ == bytes_text(bytes as nat),
{
    if bytes >= 0x100_0000_0000 {
        text::cat2(decimal(bytes, 0x100_0000_0000).as_str(), " TiB")
    } else if bytes >= 0x4000_0000 {
        text::cat2(decimal(bytes, 0x4000_0000).as_str(), " GiB")
    } else if bytes >= 0x10_0000 {
        text::cat2(decimal(bytes, 0x10_0000).as_str(), " MiB")
    } else {
        text::cat2(text::dec_u64(bytes).as_str(), " B")
    }
}

/// What to tell the user of a pool that was set up.
pub fn init_report(pool_name: &str, pool_size_bytes: u64, block_size_sectors: u32) -> (r: String)
    ensures
        r@ == "dm-thin pool '"@ + pool_name@ + "' active ("@ + bytes_text(pool_size_bytes as nat)
            + " data, "@ + bytes_text((block_size_sectors * 512) as nat) + " block size)."@,
{
    text::cat7(
        "dm-thin pool '",
        pool_name,
        "' active (",
        format_bytes(pool_size_bytes).as_str(),
        " data, ",
        format_bytes(block_size_sectors as u64 * 512).as_str(),
        " block size).",
    )
}

/// What to tell the user of a pool that has grown.
pub fn grow_report(new_bytes: u64) -> (r: String)
    ensures
        r@ == "Grew dm-thin pool data device to "@ + bytes_text(new_bytes as nat) + "."@,
{
    text::cat3("Grew dm-thin pool data device to ", format_bytes(new_bytes).as_str(), ".")
}

} // verus!
