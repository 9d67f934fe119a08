//! What the backends of a platform exchange with the rest.
use crate::config::{ByteSize, DmThinMode, StorageKind};
use crate::error::Error;
use crate::plan;
use crate::plan::{Plan, Reply};
use crate::state::vm::NetworkInfo;
use vstd::prelude::*;

verus! {

/// A VM that was started.
#[derive(Clone, Debug, PartialEq)]
pub struct StartedVm {
    pub pid: u32,
    pub network: NetworkInfo,
}

/// A volume that was created or cloned.
#[derive(Clone, Debug, PartialEq, Eq)]
pub struct VolumeHandle {
    pub disk_path: String,
    /// Id of the volume in the dm-thin pool.
    pub thin_id: Option<u64>,
}

impl VolumeHandle {
    /// The handle of a volume that is known by its path alone.
    pub fn from_path(path: &str) -> (r: Self)
        ensures
            r.disk_path@ == path@,
            r.thin_id is None,
    {
        VolumeHandle { disk_path: path.to_owned(), thin_id: None }
    }
}

/// What an installation is set up with.
#[derive(Clone, Debug, PartialEq)]
pub struct InitConfig {
    pub storage_backend: StorageKind,
    pub state_dir: String,
    pub instance_id: String,
    pub pool: String,
    pub dataset: String,
    pub device: Option<String>,
    pub storage_path: Option<String>,
    pub btrfs_size: Option<String>,
    pub dm_thin_size: Option<ByteSize>,
    pub dm_thin_metadata_size: Option<ByteSize>,
    pub dm_thin_block_size: Option<u32>,
    pub dm_thin_mode: Option<DmThinMode>,
}

/// The address of a guest, by its hardware address. Addresses are allocated before a
/// guest starts, so there is nothing to discover.
pub fn discover_guest_ip(_mac: &str) -> (r: Result<String, Error>)
    ensures
        r matches Err(e) && (e matches Error::Network(m) && m@
            == "guest IP discovery not supported — IPs are statically allocated"@),
{
    Err(
        Error::Network(
            "guest IP discovery not supported — IPs are statically allocated".to_owned(),
        ),
    )
}

/// How a guest gets its resolver configuration.
#[derive(Clone, Copy, Debug, PartialEq, Eq)]
pub enum ResolvConfMode {
    Symlink(&'static str),
    StaticContent(&'static str),
}

/// What tools images are made with.
#[derive(Clone, Copy, Debug, PartialEq, Eq)]
pub struct ImageToolConfig {
    pub tar_command: &'static str,
    pub needs_fakeroot: bool,
    pub override_os: Option<&'static str>,
}

/// Changing files of a disk: mount it, change them, and unmount it whether or not
/// that worked.
#[derive(Clone, Copy, Debug, PartialEq, Eq, Structural)]
pub enum Injection {
    /// Mount the disk.
    Mount,
    /// Change the files.
    Inject,
    /// Unmount the disk.
    Unmount,
    /// Unmount the disk after a failure.
    UnmountFailed,
    /// The files are changed.
    Done,
    /// They are not.
    Failed,
}

impl Plan for Injection {
    open spec fn next(self, r: Reply) -> Self {
        match self {
            Injection::Mount => match r {
                Reply::Error => Injection::Failed,
                _ => Injection::Inject,
            },
            Injection::Inject => match r {
                Reply::Error => Injection::UnmountFailed,
                _ => Injection::Unmount,
            },
            Injection::Unmount => match r {
                Reply::Error => Injection::Failed,
                _ => Injection::Done,
            },
            Injection::UnmountFailed => Injection::Failed,
            Injection::Done => Injection::Done,
            Injection::Failed => Injection::Failed,
        }
    }

    open spec fn lenient(self) -> bool {
        false
    }

    open spec fn ended(self) -> bool {
        self == Injection::Done || self == Injection::Failed
    }

    open spec fn doomed(self) -> bool {
        self == Injection::UnmountFailed || self == Injection::Failed
    }

    open spec fn left(self) -> nat {
        match self {
            Injection::Mount => 3,
            Injection::Inject => 2,
            Injection::Unmount => 1,
            Injection::UnmountFailed => 1,
            _ => 0,
        }
    }

    fn step(self, r: Reply) -> (p: Self) {
        match self {
            Injection::Mount => match r {
                Reply::Error => Injection::Failed,
                _ => Injection::Inject,
            },
            Injection::Inject => match r {
                Reply::Error => Injection::UnmountFailed,
                _ => Injection::Unmount,
            },
            Injection::Unmount => match r {
                Reply::Error => Injection::Failed,
                _ => Injection::Done,
            },
            Injection::UnmountFailed => Injection::Failed,
            Injection::Done => Injection::Done,
            Injection::Failed => Injection::Failed,
        }
    }

    fn is_lenient(self) -> (b: bool) {
        false
    }

    proof fn lemma_ends(self, r: Reply) {
    }
}

/// A disk that was mounted is unmounted before the work ends, and the work succeeds
/// only where all of it did.
pub proof fn law_injection_unmounts(replies: Seq<Reply>)
    ensures
        ({
            let p = Injection::Mount;
            let end = plan::reached(p, replies);
            &&& end.ended() && plan::manages(p, replies, Injection::Mount)
                ==> plan::does(p, replies, Injection::Unmount)
                || plan::does(p, replies, Injection::UnmountFailed)
            &&& end == Injection::Done ==> plan::manages(p, replies, Injection::Unmount)
            &&& end == Injection::Done ==> plan::manages(p, replies, Injection::Inject)
            &&& end == Injection::Done ==> plan::manages(p, replies, Injection::Mount)
        }),
{
    let p = Injection::Mount;
    plan::lemma_way_out(
        p,
        replies,
        plan::managing(Injection::Mount),
        |x: Injection|
            x == Injection::Inject || x == Injection::Unmount
                || x == Injection::UnmountFailed,
        plan::either(plan::doing(Injection::Unmount), plan::doing(Injection::UnmountFailed)),
    );
    plan::lemma_either(
        p,
        replies,
        plan::doing(Injection::Unmount),
        plan::doing(Injection::UnmountFailed),
    );
    plan::lemma_way_in(
        p,
        replies,
        |x: Injection| x == Injection::Done,
        plan::managing(Injection::Unmount),
    );
    plan::lemma_way_in(
        p,
        replies,
        |x: Injection| x == Injection::Done || x == Injection::Unmount,
        plan::managing(Injection::Inject),
    );
    plan::lemma_way_in(
        p,
        replies,
        |x: Injection|
            x == Injection::Done || x == Injection::Unmount || x == Injection::Inject
                || x == Injection::UnmountFailed,
        plan::managing(Injection::Mount),
    );
}

/// What to return after a disk was unmounted: the failure of the change comes
/// before the failure of the unmount.
pub fn injected(inject: Result<String, Error>, unmount: Result<(), Error>) -> (r: Result<
    String,
    Error,
>)
    ensures
        r == (match (inject, unmount) {
            (Err(e), _) => Err(e),
            (Ok(_), Err(e)) => Err(e),
            (Ok(user), Ok(_)) => Ok(user),
        }),
{
    match inject {
        Err(e) => Err(e),
        Ok(user) => match unmount {
            Err(e) => Err(e),
            Ok(_) => Ok(user),
        },
    }
}

} // verus!
