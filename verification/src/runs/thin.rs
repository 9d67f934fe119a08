//! The order of work on dm-thin pools and on the disks in them, in every run.
use crate::backend;
use crate::dm_thin::{pool, storage};
use crate::plan;
use crate::plan::{Plan, Reply};
use vstd::prelude::*;

verus! {

/// Files are changed on a disk that is mounted, and it is unmounted again. A phase is
/// done only after the ones it needs, and the work is done only where all of them
/// were.
pub proof fn law_injection_order(replies: Seq<Reply>)
    ensures
        ({
            let p = backend::Injection::Mount;
            let end = plan::reached(p, replies);
            &&& !backend::Injection::Done.doomed()
            &&& backend::Injection::Failed.doomed()
            &&& plan::does(p, replies, backend::Injection::Inject)
                ==> plan::manages(p, replies, backend::Injection::Mount)
            &&& plan::does(p, replies, backend::Injection::Unmount)
                ==> plan::manages(p, replies, backend::Injection::Inject)
            &&& plan::does(p, replies, backend::Injection::UnmountFailed)
                ==> plan::gets(p, replies, backend::Injection::Inject, Reply::Error)
            &&& end == backend::Injection::Done
                ==> plan::manages(p, replies, backend::Injection::Unmount)
            &&& end == backend::Injection::Done
                ==> plan::manages(p, replies, backend::Injection::Mount)
            &&& end == backend::Injection::Done
                ==> plan::manages(p, replies, backend::Injection::Inject)
            &&& end == backend::Injection::Failed
                ==> plan::gets(p, replies, backend::Injection::Mount, Reply::Error)
                || plan::gets(p, replies, backend::Injection::Unmount, Reply::Error)
                || plan::does(p, replies, backend::Injection::UnmountFailed)
        }),
{
    let p = backend::Injection::Mount;
    let end = plan::reached(p, replies);
    assert(plan::does(p, replies, backend::Injection::Inject)
        ==> plan::manages(p, replies, backend::Injection::Mount)) by {
        plan::lemma_way_in(
            p,
            replies,
            |x: backend::Injection|
                x != backend::Injection::Mount && x != backend::Injection::Failed,
            plan::managing(backend::Injection::Mount),
        );
    }
    assert(plan::does(p, replies, backend::Injection::Unmount)
        ==> plan::manages(p, replies, backend::Injection::Inject)) by {
        plan::lemma_way_in(
            p,
            replies,
            |x: backend::Injection|
                x == backend::Injection::Unmount || x == backend::Injection::Done,
            plan::managing(backend::Injection::Inject),
        );
    }
    assert(plan::does(p, replies, backend::Injection::UnmountFailed)
        ==> plan::gets(p, replies, backend::Injection::Inject, Reply::Error)) by {
        plan::lemma_way_in(
            p,
            replies,
            |x: backend::Injection| x == backend::Injection::UnmountFailed,
            plan::getting(backend::Injection::Inject, Reply::Error),
        );
    }
    assert(end == backend::Injection::Done ==> plan::manages(p, replies, backend::Injection::Unmount)) by {
        plan::lemma_way_in(
            p,
            replies,
            |x: backend::Injection| x == backend::Injection::Done,
            plan::managing(backend::Injection::Unmount),
        );
    }
    assert(end == backend::Injection::Done ==> plan::manages(p, replies, backend::Injection::Mount)) by {
        plan::lemma_way_in(
            p,
            replies,
            |x: backend::Injection|
                x != backend::Injection::Mount && x != backend::Injection::Failed,
            plan::managing(backend::Injection::Mount),
        );
    }
    assert(end == backend::Injection::Done ==> plan::manages(p, replies, backend::Injection::Inject)) by {
        plan::lemma_way_in(
            p,
            replies,
            |x: backend::Injection|
                x == backend::Injection::Unmount || x == backend::Injection::Done,
            plan::managing(backend::Injection::Inject),
        );
    }
    assert(end == backend::Injection::Failed
        ==> plan::gets(p, replies, backend::Injection::Mount, Reply::Error)
        || plan::gets(p, replies, backend::Injection::Unmount, Reply::Error)
        || plan::does(p, replies, backend::Injection::UnmountFailed)) by {
        plan::lemma_way_in(
            p,
            replies,
            |x: backend::Injection| x == backend::Injection::Failed,
            plan::either(plan::getting(backend::Injection::Mount, Reply::Error), plan::either(plan::getting(backend::Injection::Unmount, Reply::Error), plan::doing(backend::Injection::UnmountFailed))),
        );
        plan::lemma_either(
            p,
            replies,
            plan::getting(backend::Injection::Mount, Reply::Error),
            plan::either(plan::getting(backend::Injection::Unmount, Reply::Error), plan::doing(backend::Injection::UnmountFailed)),
        );
        plan::lemma_either(
            p,
            replies,
            plan::getting(backend::Injection::Unmount, Reply::Error),
            plan::doing(backend::Injection::UnmountFailed),
        );
    }
}

/// A pool gets a new table while it is suspended, and is resumed whatever comes of
/// that. A phase is done only after the ones it needs, and the work is done only
/// where all of them were.
pub proof fn law_reload_order(replies: Seq<Reply>)
    ensures
        ({
            let p = pool::Reload::Suspend;
            let end = plan::reached(p, replies);
            &&& !pool::Reload::Done.doomed()
            &&& pool::Reload::Failed.doomed()
            &&& plan::does(p, replies, pool::Reload::Load)
                ==> plan::manages(p, replies, pool::Reload::Suspend)
            &&& plan::does(p, replies, pool::Reload::CheckLoad)
                ==> plan::manages(p, replies, pool::Reload::Load)
            &&& plan::does(p, replies, pool::Reload::Resume)
                ==> plan::manages(p, replies, pool::Reload::CheckLoad)
            &&& plan::does(p, replies, pool::Reload::Recover)
                ==> plan::gets(p, replies, pool::Reload::CheckLoad, Reply::Error)
            &&& end == pool::Reload::Done ==> plan::manages(p, replies, pool::Reload::Resume)
            &&& end == pool::Reload::Done ==> plan::manages(p, replies, pool::Reload::Suspend)
            &&& end == pool::Reload::Done ==> plan::manages(p, replies, pool::Reload::Load)
            &&& end == pool::Reload::Done ==> plan::manages(p, replies, pool::Reload::CheckLoad)
            &&& end == pool::Reload::Failed
                ==> plan::gets(p, replies, pool::Reload::Suspend, Reply::Error)
                || plan::gets(p, replies, pool::Reload::Load, Reply::Error)
                || plan::gets(p, replies, pool::Reload::Resume, Reply::Error)
                || plan::does(p, replies, pool::Reload::Recover)
        }),
{
    let p = pool::Reload::Suspend;
    let end = plan::reached(p, replies);
    assert(plan::does(p, replies, pool::Reload::Load)
        ==> plan::manages(p, replies, pool::Reload::Suspend)) by {
        plan::lemma_way_in(
            p,
            replies,
            |x: pool::Reload| x != pool::Reload::Suspend && x != pool::Reload::Failed,
            plan::managing(pool::Reload::Suspend),
        );
    }
    assert(plan::does(p, replies, pool::Reload::CheckLoad)
        ==> plan::manages(p, replies, pool::Reload::Load)) by {
        plan::lemma_way_in(
            p,
            replies,
            |x: pool::Reload|
                x != pool::Reload::Suspend && x != pool::Reload::Load
                    && x != pool::Reload::Failed,
            plan::managing(pool::Reload::Load),
        );
    }
    assert(plan::does(p, replies, pool::Reload::Resume)
        ==> plan::manages(p, replies, pool::Reload::CheckLoad)) by {
        plan::lemma_way_in(
            p,
            replies,
            |x: pool::Reload| x == pool::Reload::Resume || x == pool::Reload::Done,
            plan::managing(pool::Reload::CheckLoad),
        );
    }
    assert(plan::does(p, replies, pool::Reload::Recover)
        ==> plan::gets(p, replies, pool::Reload::CheckLoad, Reply::Error)) by {
        plan::lemma_way_in(
            p,
            replies,
            |x: pool::Reload| x == pool::Reload::Recover,
            plan::getting(pool::Reload::CheckLoad, Reply::Error),
        );
    }
    assert(end == pool::Reload::Done ==> plan::manages(p, replies, pool::Reload::Resume)) by {
        plan::lemma_way_in(
            p,
            replies,
            |x: pool::Reload| x == pool::Reload::Done,
            plan::managing(pool::Reload::Resume),
        );
    }
    assert(end == pool::Reload::Done ==> plan::manages(p, replies, pool::Reload::Suspend)) by {
        plan::lemma_way_in(
            p,
            replies,
            |x: pool::Reload| x != pool::Reload::Suspend && x != pool::Reload::Failed,
            plan::managing(pool::Reload::Suspend),
        );
    }
    assert(end == pool::Reload::Done ==> plan::manages(p, replies, pool::Reload::Load)) by {
        plan::lemma_way_in(
            p,
            replies,
            |x: pool::Reload|
                x != pool::Reload::Suspend && x != pool::Reload::Load
                    && x != pool::Reload::Failed,
            plan::managing(pool::Reload::Load),
        );
    }
    assert(end == pool::Reload::Done ==> plan::manages(p, replies, pool::Reload::CheckLoad)) by {
        plan::lemma_way_in(
            p,
            replies,
            |x: pool::Reload| x == pool::Reload::Resume || x == pool::Reload::Done,
            plan::managing(pool::Reload::CheckLoad),
        );
    }
    assert(end == pool::Reload::Failed
        ==> plan::gets(p, replies, pool::Reload::Suspend, Reply::Error)
        || plan::gets(p, replies, pool::Reload::Load, Reply::Error)
        || plan::gets(p, replies, pool::Reload::Resume, Reply::Error)
        || plan::does(p, replies, pool::Reload::Recover)) by {
        plan::lemma_way_in(
            p,
            replies,
            |x: pool::Reload| x == pool::Reload::Failed,
            plan::either(plan::getting(pool::Reload::Suspend, Reply::Error), plan::either(plan::getting(pool::Reload::Load, Reply::Error), plan::either(plan::getting(pool::Reload::Resume, Reply::Error), plan::doing(pool::Reload::Recover)))),
        );
        plan::lemma_either(
            p,
            replies,
            plan::getting(pool::Reload::Suspend, Reply::Error),
            plan::either(plan::getting(pool::Reload::Load, Reply::Error), plan::either(plan::getting(pool::Reload::Resume, Reply::Error), plan::doing(pool::Reload::Recover))),
        );
        plan::lemma_either(
            p,
            replies,
            plan::getting(pool::Reload::Load, Reply::Error),
            plan::either(plan::getting(pool::Reload::Resume, Reply::Error), plan::doing(pool::Reload::Recover)),
        );
        plan::lemma_either(
            p,
            replies,
            plan::getting(pool::Reload::Resume, Reply::Error),
            plan::doing(pool::Reload::Recover),
        );
    }
}

/// A pool is active only once its target is loaded, its files are attached and its
/// metadata was checked. A phase is done only after the ones it needs, and the work
/// is done only where all of them were.
pub proof fn law_activation_order(replies: Seq<Reply>)
    ensures
        ({
            let p = storage::Activation::AskPool;
            let end = plan::reached(p, replies);
            &&& !storage::Activation::Active.doomed()
            &&& storage::Activation::Failed.doomed()
            &&& plan::does(p, replies, storage::Activation::LoadModule)
                ==> plan::gets(p, replies, storage::Activation::AskPool, Reply::No)
            &&& plan::does(p, replies, storage::Activation::ListTargets)
                ==> plan::does(p, replies, storage::Activation::LoadModule)
            &&& plan::does(p, replies, storage::Activation::FindMetadata)
                ==> plan::manages(p, replies, storage::Activation::ListTargets)
            &&& plan::does(p, replies, storage::Activation::AttachMetadata)
                ==> plan::gets(p, replies, storage::Activation::FindMetadata, Reply::No)
            &&& plan::does(p, replies, storage::Activation::StatData)
                ==> plan::gets(p, replies, storage::Activation::FindMetadata, Reply::Yes)
                || plan::manages(p, replies, storage::Activation::AttachMetadata)
            &&& plan::does(p, replies, storage::Activation::FindData)
                ==> plan::gets(p, replies, storage::Activation::StatData, Reply::Yes)
            &&& plan::does(p, replies, storage::Activation::AttachData)
                ==> plan::gets(p, replies, storage::Activation::FindData, Reply::No)
            &&& plan::does(p, replies, storage::Activation::CheckMetadata)
                ==> plan::gets(p, replies, storage::Activation::StatData, Reply::No)
                || plan::gets(p, replies, storage::Activation::FindData, Reply::Yes)
                || plan::manages(p, replies, storage::Activation::AttachData)
            &&& plan::does(p, replies, storage::Activation::MeasureData)
                ==> plan::manages(p, replies, storage::Activation::CheckMetadata)
            &&& plan::does(p, replies, storage::Activation::CreatePool)
                ==> plan::manages(p, replies, storage::Activation::MeasureData)
            &&& end == storage::Activation::Active
                ==> plan::gets(p, replies, storage::Activation::AskPool, Reply::Yes)
                || plan::manages(p, replies, storage::Activation::CreatePool)
            &&& end == storage::Activation::Active
                ==> plan::manages(p, replies, storage::Activation::AskPool)
        }),
{
    let p = storage::Activation::AskPool;
    let end = plan::reached(p, replies);
    assert(plan::does(p, replies, storage::Activation::LoadModule)
        ==> plan::gets(p, replies, storage::Activation::AskPool, Reply::No)) by {
        plan::lemma_way_in(
            p,
            replies,
            |x: storage::Activation|
                x != storage::Activation::AskPool && x != storage::Activation::Active
                    && x != storage::Activation::Failed,
            plan::getting(storage::Activation::AskPool, Reply::No),
        );
    }
    assert(plan::does(p, replies, storage::Activation::ListTargets)
        ==> plan::does(p, replies, storage::Activation::LoadModule)) by {
        plan::lemma_way_in(
            p,
            replies,
            |x: storage::Activation|
                x != storage::Activation::AskPool && x != storage::Activation::LoadModule
                    && x != storage::Activation::Active && x != storage::Activation::Failed,
            plan::doing(storage::Activation::LoadModule),
        );
    }
    assert(plan::does(p, replies, storage::Activation::FindMetadata)
        ==> plan::manages(p, replies, storage::Activation::ListTargets)) by {
        plan::lemma_way_in(
            p,
            replies,
            |x: storage::Activation|
                x != storage::Activation::AskPool && x != storage::Activation::LoadModule
                    && x != storage::Activation::ListTargets && x != storage::Activation::Active
                    && x != storage::Activation::Failed,
            plan::managing(storage::Activation::ListTargets),
        );
    }
    assert(plan::does(p, replies, storage::Activation::AttachMetadata)
        ==> plan::gets(p, replies, storage::Activation::FindMetadata, Reply::No)) by {
        plan::lemma_way_in(
            p,
            replies,
            |x: storage::Activation| x == storage::Activation::AttachMetadata,
            plan::getting(storage::Activation::FindMetadata, Reply::No),
        );
    }
    assert(plan::does(p, replies, storage::Activation::StatData)
        ==> plan::gets(p, replies, storage::Activation::FindMetadata, Reply::Yes)
        || plan::manages(p, replies, storage::Activation::AttachMetadata)) by {
        plan::lemma_way_in(
            p,
            replies,
            |x: storage::Activation|
                x == storage::Activation::StatData || x == storage::Activation::FindData
                    || x == storage::Activation::AttachData
                    || x == storage::Activation::CheckMetadata
                    || x == storage::Activation::MeasureData
                    || x == storage::Activation::CreatePool,
            plan::either(plan::getting(storage::Activation::FindMetadata, Reply::Yes), plan::managing(storage::Activation::AttachMetadata)),
        );
        plan::lemma_either(
            p,
            replies,
            plan::getting(storage::Activation::FindMetadata, Reply::Yes),
            plan::managing(storage::Activation::AttachMetadata),
        );
    }
    assert(plan::does(p, replies, storage::Activation::FindData)
        ==> plan::gets(p, replies, storage::Activation::StatData, Reply::Yes)) by {
        plan::lemma_way_in(
            p,
            replies,
            |x: storage::Activation|
                x == storage::Activation::FindData || x == storage::Activation::AttachData,
            plan::getting(storage::Activation::StatData, Reply::Yes),
        );
    }
    assert(plan::does(p, replies, storage::Activation::AttachData)
        ==> plan::gets(p, replies, storage::Activation::FindData, Reply::No)) by {
        plan::lemma_way_in(
            p,
            replies,
            |x: storage::Activation| x == storage::Activation::AttachData,
            plan::getting(storage::Activation::FindData, Reply::No),
        );
    }
    assert(plan::does(p, replies, storage::Activation::CheckMetadata)
        ==> plan::gets(p, replies, storage::Activation::StatData, Reply::No)
        || plan::gets(p, replies, storage::Activation::FindData, Reply::Yes)
        || plan::manages(p, replies, storage::Activation::AttachData)) by {
        plan::lemma_way_in(
            p,
            replies,
            |x: storage::Activation|
                x == storage::Activation::CheckMetadata || x == storage::Activation::MeasureData
                    || x == storage::Activation::CreatePool,
            plan::either(plan::getting(storage::Activation::StatData, Reply::No), plan::either(plan::getting(storage::Activation::FindData, Reply::Yes), plan::managing(storage::Activation::AttachData))),
        );
        plan::lemma_either(
            p,
            replies,
            plan::getting(storage::Activation::StatData, Reply::No),
            plan::either(plan::getting(storage::Activation::FindData, Reply::Yes), plan::managing(storage::Activation::AttachData)),
        );
        plan::lemma_either(
            p,
            replies,
            plan::getting(storage::Activation::FindData, Reply::Yes),
            plan::managing(storage::Activation::AttachData),
        );
    }
    assert(plan::does(p, replies, storage::Activation::MeasureData)
        ==> plan::manages(p, replies, storage::Activation::CheckMetadata)) by {
        plan::lemma_way_in(
            p,
            replies,
            |x: storage::Activation|
                x == storage::Activation::MeasureData || x == storage::Activation::CreatePool,
            plan::managing(storage::Activation::CheckMetadata),
        );
    }
    assert(plan::does(p, replies, storage::Activation::CreatePool)
        ==> plan::manages(p, replies, storage::Activation::MeasureData)) by {
        plan::lemma_way_in(
            p,
            replies,
            |x: storage::Activation| x == storage::Activation::CreatePool,
            plan::managing(storage::Activation::MeasureData),
        );
    }
    assert(end == storage::Activation::Active
        ==> plan::gets(p, replies, storage::Activation::AskPool, Reply::Yes)
        || plan::manages(p, replies, storage::Activation::CreatePool)) by {
        plan::lemma_way_in(
            p,
            replies,
            |x: storage::Activation| x == storage::Activation::Active,
            plan::either(plan::getting(storage::Activation::AskPool, Reply::Yes), plan::managing(storage::Activation::CreatePool)),
        );
        plan::lemma_either(
            p,
            replies,
            plan::getting(storage::Activation::AskPool, Reply::Yes),
            plan::managing(storage::Activation::CreatePool),
        );
    }
    assert(end == storage::Activation::Active ==> plan::manages(p, replies, storage::Activation::AskPool)) by {
        plan::lemma_way_in(
            p,
            replies,
            |x: storage::Activation|
                x != storage::Activation::AskPool && x != storage::Activation::Failed,
            plan::managing(storage::Activation::AskPool),
        );
    }
}

/// A pool is set up from its files to its table: a file is made before it is
/// attached, and what was attached is detached again where a later phase fails. A
/// phase is done only after the ones it needs, and the work is done only where all of
/// them were.
pub proof fn law_init_order(replies: Seq<Reply>)
    ensures
        ({
            let p = storage::Init::RequirePath;
            let end = plan::reached(p, replies);
            &&& !storage::Init::Done.doomed()
            &&& storage::Init::Failed.doomed()
            &&& plan::does(p, replies, storage::Init::LoadModule)
                ==> plan::manages(p, replies, storage::Init::RequirePath)
            &&& plan::does(p, replies, storage::Init::ListTargets)
                ==> plan::does(p, replies, storage::Init::LoadModule)
            &&& plan::does(p, replies, storage::Init::Layout)
                ==> plan::manages(p, replies, storage::Init::ListTargets)
            &&& plan::does(p, replies, storage::Init::MeasureDevice)
                ==> plan::gets(p, replies, storage::Init::Layout, Reply::No)
            &&& plan::does(p, replies, storage::Init::Metadata)
                ==> plan::gets(p, replies, storage::Init::Layout, Reply::Yes)
                || plan::manages(p, replies, storage::Init::MeasureDevice)
            &&& plan::does(p, replies, storage::Init::AskMetadataSize)
                ==> plan::gets(p, replies, storage::Init::Metadata, Reply::No)
            &&& plan::does(p, replies, storage::Init::AskMetadataFile)
                ==> plan::gets(p, replies, storage::Init::Metadata, Reply::Yes)
                || plan::manages(p, replies, storage::Init::AskMetadataSize)
            &&& plan::does(p, replies, storage::Init::MakeMetadataDir)
                ==> plan::gets(p, replies, storage::Init::AskMetadataFile, Reply::Yes)
            &&& plan::does(p, replies, storage::Init::CreateMetadata)
                ==> plan::manages(p, replies, storage::Init::MakeMetadataDir)
            &&& plan::does(p, replies, storage::Init::AskDataFile)
                ==> plan::gets(p, replies, storage::Init::AskMetadataFile, Reply::No)
                || plan::manages(p, replies, storage::Init::CreateMetadata)
            &&& plan::does(p, replies, storage::Init::MakeDataDir)
                ==> plan::gets(p, replies, storage::Init::AskDataFile, Reply::Yes)
            &&& plan::does(p, replies, storage::Init::AskDataMissing)
                ==> plan::manages(p, replies, storage::Init::MakeDataDir)
            &&& plan::does(p, replies, storage::Init::CreateData)
                ==> plan::gets(p, replies, storage::Init::AskDataMissing, Reply::Yes)
            &&& plan::does(p, replies, storage::Init::ZeroHead)
                ==> plan::gets(p, replies, storage::Init::AskDataFile, Reply::No)
                || plan::gets(p, replies, storage::Init::AskDataMissing, Reply::No)
                || plan::manages(p, replies, storage::Init::CreateData)
            &&& plan::does(p, replies, storage::Init::FindMetadata)
                ==> plan::manages(p, replies, storage::Init::ZeroHead)
            &&& plan::does(p, replies, storage::Init::AttachMetadata)
                ==> plan::gets(p, replies, storage::Init::FindMetadata, Reply::No)
            &&& plan::does(p, replies, storage::Init::StatData)
                ==> plan::gets(p, replies, storage::Init::FindMetadata, Reply::Yes)
                || plan::manages(p, replies, storage::Init::AttachMetadata)
            &&& plan::does(p, replies, storage::Init::FindData)
                ==> plan::gets(p, replies, storage::Init::StatData, Reply::Yes)
            &&& plan::does(p, replies, storage::Init::AttachData)
                ==> plan::gets(p, replies, storage::Init::FindData, Reply::No)
            &&& plan::does(p, replies, storage::Init::MeasureData)
                ==> plan::gets(p, replies, storage::Init::StatData, Reply::No)
                || plan::gets(p, replies, storage::Init::FindData, Reply::Yes)
                || plan::manages(p, replies, storage::Init::AttachData)
            &&& plan::does(p, replies, storage::Init::CreatePool)
                ==> plan::manages(p, replies, storage::Init::MeasureData)
            &&& plan::does(p, replies, storage::Init::DetachMetadataOnly)
                ==> plan::gets(p, replies, storage::Init::StatData, Reply::Error)
                || plan::gets(p, replies, storage::Init::FindData, Reply::Error)
                || plan::gets(p, replies, storage::Init::AttachData, Reply::Error)
            &&& plan::does(p, replies, storage::Init::DetachMetadata)
                ==> plan::gets(p, replies, storage::Init::MeasureData, Reply::Error)
                || plan::gets(p, replies, storage::Init::CreatePool, Reply::Error)
            &&& plan::does(p, replies, storage::Init::AskDataLoop)
                ==> plan::does(p, replies, storage::Init::DetachMetadata)
            &&& plan::does(p, replies, storage::Init::DetachData)
                ==> plan::gets(p, replies, storage::Init::AskDataLoop, Reply::Yes)
            &&& end == storage::Init::Done ==> plan::manages(p, replies, storage::Init::CreatePool)
            &&& end == storage::Init::Done ==> plan::manages(p, replies, storage::Init::RequirePath)
            &&& end == storage::Init::Done ==> plan::does(p, replies, storage::Init::LoadModule)
            &&& end == storage::Init::Done ==> plan::manages(p, replies, storage::Init::ListTargets)
            &&& end == storage::Init::Done ==> plan::manages(p, replies, storage::Init::Layout)
            &&& end == storage::Init::Done ==> plan::manages(p, replies, storage::Init::Metadata)
            &&& end == storage::Init::Done
                ==> plan::manages(p, replies, storage::Init::AskMetadataFile)
            &&& end == storage::Init::Done ==> plan::manages(p, replies, storage::Init::AskDataFile)
            &&& end == storage::Init::Done ==> plan::manages(p, replies, storage::Init::ZeroHead)
            &&& end == storage::Init::Done ==> plan::manages(p, replies, storage::Init::FindMetadata)
            &&& end == storage::Init::Done ==> plan::manages(p, replies, storage::Init::StatData)
            &&& end == storage::Init::Done ==> plan::manages(p, replies, storage::Init::MeasureData)
            &&& end == storage::Init::Failed
                ==> plan::gets(p, replies, storage::Init::RequirePath, Reply::Error)
                || plan::gets(p, replies, storage::Init::ListTargets, Reply::Error)
                || plan::gets(p, replies, storage::Init::Layout, Reply::Error)
                || plan::gets(p, replies, storage::Init::MeasureDevice, Reply::Error)
                || plan::gets(p, replies, storage::Init::Metadata, Reply::Error)
                || plan::gets(p, replies, storage::Init::AskMetadataSize, Reply::Error)
                || plan::gets(p, replies, storage::Init::AskMetadataFile, Reply::Error)
                || plan::gets(p, replies, storage::Init::MakeMetadataDir, Reply::Error)
                || plan::gets(p, replies, storage::Init::CreateMetadata, Reply::Error)
                || plan::gets(p, replies, storage::Init::AskDataFile, Reply::Error)
                || plan::gets(p, replies, storage::Init::MakeDataDir, Reply::Error)
                || plan::gets(p, replies, storage::Init::AskDataMissing, Reply::Error)
                || plan::gets(p, replies, storage::Init::CreateData, Reply::Error)
                || plan::gets(p, replies, storage::Init::ZeroHead, Reply::Error)
                || plan::gets(p, replies, storage::Init::FindMetadata, Reply::Error)
                || plan::gets(p, replies, storage::Init::AttachMetadata, Reply::Error)
                || plan::does(p, replies, storage::Init::DetachMetadataOnly)
                || plan::gets(p, replies, storage::Init::AskDataLoop, Reply::No)
                || plan::gets(p, replies, storage::Init::AskDataLoop, Reply::Error)
                || plan::does(p, replies, storage::Init::DetachData)
        }),
{
    let p = storage::Init::RequirePath;
    let end = plan::reached(p, replies);
    assert(plan::does(p, replies, storage::Init::LoadModule)
        ==> plan::manages(p, replies, storage::Init::RequirePath)) by {
        plan::lemma_way_in(
            p,
            replies,
            |x: storage::Init|
                x != storage::Init::RequirePath && x != storage::Init::Failed,
            plan::managing(storage::Init::RequirePath),
        );
    }
    assert(plan::does(p, replies, storage::Init::ListTargets)
        ==> plan::does(p, replies, storage::Init::LoadModule)) by {
        plan::lemma_way_in(
            p,
            replies,
            |x: storage::Init|
                x != storage::Init::RequirePath && x != storage::Init::LoadModule
                    && x != storage::Init::Failed,
            plan::doing(storage::Init::LoadModule),
        );
    }
    assert(plan::does(p, replies, storage::Init::Layout)
        ==> plan::manages(p, replies, storage::Init::ListTargets)) by {
        plan::lemma_way_in(
            p,
            replies,
            |x: storage::Init|
                x != storage::Init::RequirePath && x != storage::Init::LoadModule
                    && x != storage::Init::ListTargets && x != storage::Init::Failed,
            plan::managing(storage::Init::ListTargets),
        );
    }
    assert(plan::does(p, replies, storage::Init::MeasureDevice)
        ==> plan::gets(p, replies, storage::Init::Layout, Reply::No)) by {
        plan::lemma_way_in(
            p,
            replies,
            |x: storage::Init| x == storage::Init::MeasureDevice,
            plan::getting(storage::Init::Layout, Reply::No),
        );
    }
    assert(plan::does(p, replies, storage::Init::Metadata)
        ==> plan::gets(p, replies, storage::Init::Layout, Reply::Yes)
        || plan::manages(p, replies, storage::Init::MeasureDevice)) by {
        plan::lemma_way_in(
            p,
            replies,
            |x: storage::Init|
                x != storage::Init::RequirePath && x != storage::Init::LoadModule
                    && x != storage::Init::ListTargets && x != storage::Init::Layout
                    && x != storage::Init::MeasureDevice && x != storage::Init::Failed,
            plan::either(plan::getting(storage::Init::Layout, Reply::Yes), plan::managing(storage::Init::MeasureDevice)),
        );
        plan::lemma_either(
            p,
            replies,
            plan::getting(storage::Init::Layout, Reply::Yes),
            plan::managing(storage::Init::MeasureDevice),
        );
    }
    assert(plan::does(p, replies, storage::Init::AskMetadataSize)
        ==> plan::gets(p, replies, storage::Init::Metadata, Reply::No)) by {
        plan::lemma_way_in(
            p,
            replies,
            |x: storage::Init| x == storage::Init::AskMetadataSize,
            plan::getting(storage::Init::Metadata, Reply::No),
        );
    }
    assert(plan::does(p, replies, storage::Init::AskMetadataFile)
        ==> plan::gets(p, replies, storage::Init::Metadata, Reply::Yes)
        || plan::manages(p, replies, storage::Init::AskMetadataSize)) by {
        plan::lemma_way_in(
            p,
            replies,
            |x: storage::Init|
                x != storage::Init::RequirePath && x != storage::Init::LoadModule
                    && x != storage::Init::ListTargets && x != storage::Init::Layout
                    && x != storage::Init::MeasureDevice && x != storage::Init::Metadata
                    && x != storage::Init::AskMetadataSize && x != storage::Init::Failed,
            plan::either(plan::getting(storage::Init::Metadata, Reply::Yes), plan::managing(storage::Init::AskMetadataSize)),
        );
        plan::lemma_either(
            p,
            replies,
            plan::getting(storage::Init::Metadata, Reply::Yes),
            plan::managing(storage::Init::AskMetadataSize),
        );
    }
    assert(plan::does(p, replies, storage::Init::MakeMetadataDir)
        ==> plan::gets(p, replies, storage::Init::AskMetadataFile, Reply::Yes)) by {
        plan::lemma_way_in(
            p,
            replies,
            |x: storage::Init|
                x == storage::Init::MakeMetadataDir || x == storage::Init::CreateMetadata,
            plan::getting(storage::Init::AskMetadataFile, Reply::Yes),
        );
    }
    assert(plan::does(p, replies, storage::Init::CreateMetadata)
        ==> plan::manages(p, replies, storage::Init::MakeMetadataDir)) by {
        plan::lemma_way_in(
            p,
            replies,
            |x: storage::Init| x == storage::Init::CreateMetadata,
            plan::managing(storage::Init::MakeMetadataDir),
        );
    }
    assert(plan::does(p, replies, storage::Init::AskDataFile)
        ==> plan::gets(p, replies, storage::Init::AskMetadataFile, Reply::No)
        || plan::manages(p, replies, storage::Init::CreateMetadata)) by {
        plan::lemma_way_in(
            p,
            replies,
            |x: storage::Init|
                x != storage::Init::RequirePath && x != storage::Init::LoadModule
                    && x != storage::Init::ListTargets && x != storage::Init::Layout
                    && x != storage::Init::MeasureDevice && x != storage::Init::Metadata
                    && x != storage::Init::AskMetadataSize
                    && x != storage::Init::AskMetadataFile
                    && x != storage::Init::MakeMetadataDir && x != storage::Init::CreateMetadata
                    && x != storage::Init::Failed,
            plan::either(plan::getting(storage::Init::AskMetadataFile, Reply::No), plan::managing(storage::Init::CreateMetadata)),
        );
        plan::lemma_either(
            p,
            replies,
            plan::getting(storage::Init::AskMetadataFile, Reply::No),
            plan::managing(storage::Init::CreateMetadata),
        );
    }
    assert(plan::does(p, replies, storage::Init::MakeDataDir)
        ==> plan::gets(p, replies, storage::Init::AskDataFile, Reply::Yes)) by {
        plan::lemma_way_in(
            p,
            replies,
            |x: storage::Init|
                x == storage::Init::MakeDataDir || x == storage::Init::AskDataMissing
                    || x == storage::Init::CreateData,
            plan::getting(storage::Init::AskDataFile, Reply::Yes),
        );
    }
    assert(plan::does(p, replies, storage::Init::AskDataMissing)
        ==> plan::manages(p, replies, storage::Init::MakeDataDir)) by {
        plan::lemma_way_in(
            p,
            replies,
            |x: storage::Init|
                x == storage::Init::AskDataMissing || x == storage::Init::CreateData,
            plan::managing(storage::Init::MakeDataDir),
        );
    }
    assert(plan::does(p, replies, storage::Init::CreateData)
        ==> plan::gets(p, replies, storage::Init::AskDataMissing, Reply::Yes)) by {
        plan::lemma_way_in(
            p,
            replies,
            |x: storage::Init| x == storage::Init::CreateData,
            plan::getting(storage::Init::AskDataMissing, Reply::Yes),
        );
    }
    assert(plan::does(p, replies, storage::Init::ZeroHead)
        ==> plan::gets(p, replies, storage::Init::AskDataFile, Reply::No)
        || plan::gets(p, replies, storage::Init::AskDataMissing, Reply::No)
        || plan::manages(p, replies, storage::Init::CreateData)) by {
        plan::lemma_way_in(
            p,
            replies,
            |x: storage::Init|
                x == storage::Init::ZeroHead || x == storage::Init::FindMetadata
                    || x == storage::Init::AttachMetadata || x == storage::Init::StatData
                    || x == storage::Init::FindData || x == storage::Init::AttachData
                    || x == storage::Init::MeasureData || x == storage::Init::CreatePool
                    || x == storage::Init::DetachMetadataOnly
                    || x == storage::Init::DetachMetadata || x == storage::Init::AskDataLoop
                    || x == storage::Init::DetachData || x == storage::Init::Done,
            plan::either(plan::getting(storage::Init::AskDataFile, Reply::No), plan::either(plan::getting(storage::Init::AskDataMissing, Reply::No), plan::managing(storage::Init::CreateData))),
        );
        plan::lemma_either(
            p,
            replies,
            plan::getting(storage::Init::AskDataFile, Reply::No),
            plan::either(plan::getting(storage::Init::AskDataMissing, Reply::No), plan::managing(storage::Init::CreateData)),
        );
        plan::lemma_either(
            p,
            replies,
            plan::getting(storage::Init::AskDataMissing, Reply::No),
            plan::managing(storage::Init::CreateData),
        );
    }
    assert(plan::does(p, replies, storage::Init::FindMetadata)
        ==> plan::manages(p, replies, storage::Init::ZeroHead)) by {
        plan::lemma_way_in(
            p,
            replies,
            |x: storage::Init|
                x == storage::Init::FindMetadata || x == storage::Init::AttachMetadata
                    || x == storage::Init::StatData || x == storage::Init::FindData
                    || x == storage::Init::AttachData || x == storage::Init::MeasureData
                    || x == storage::Init::CreatePool || x == storage::Init::DetachMetadataOnly
                    || x == storage::Init::DetachMetadata || x == storage::Init::AskDataLoop
                    || x == storage::Init::DetachData || x == storage::Init::Done,
            plan::managing(storage::Init::ZeroHead),
        );
    }
    assert(plan::does(p, replies, storage::Init::AttachMetadata)
        ==> plan::gets(p, replies, storage::Init::FindMetadata, Reply::No)) by {
        plan::lemma_way_in(
            p,
            replies,
            |x: storage::Init| x == storage::Init::AttachMetadata,
            plan::getting(storage::Init::FindMetadata, Reply::No),
        );
    }
    assert(plan::does(p, replies, storage::Init::StatData)
        ==> plan::gets(p, replies, storage::Init::FindMetadata, Reply::Yes)
        || plan::manages(p, replies, storage::Init::AttachMetadata)) by {
        plan::lemma_way_in(
            p,
            replies,
            |x: storage::Init|
                x == storage::Init::StatData || x == storage::Init::FindData
                    || x == storage::Init::AttachData || x == storage::Init::MeasureData
                    || x == storage::Init::CreatePool || x == storage::Init::DetachMetadataOnly
                    || x == storage::Init::DetachMetadata || x == storage::Init::AskDataLoop
                    || x == storage::Init::DetachData || x == storage::Init::Done,
            plan::either(plan::getting(storage::Init::FindMetadata, Reply::Yes), plan::managing(storage::Init::AttachMetadata)),
        );
        plan::lemma_either(
            p,
            replies,
            plan::getting(storage::Init::FindMetadata, Reply::Yes),
            plan::managing(storage::Init::AttachMetadata),
        );
    }
    assert(plan::does(p, replies, storage::Init::FindData)
        ==> plan::gets(p, replies, storage::Init::StatData, Reply::Yes)) by {
        plan::lemma_way_in(
            p,
            replies,
            |x: storage::Init|
                x == storage::Init::FindData || x == storage::Init::AttachData,
            plan::getting(storage::Init::StatData, Reply::Yes),
        );
    }
    assert(plan::does(p, replies, storage::Init::AttachData)
        ==> plan::gets(p, replies, storage::Init::FindData, Reply::No)) by {
        plan::lemma_way_in(
            p,
            replies,
            |x: storage::Init| x == storage::Init::AttachData,
            plan::getting(storage::Init::FindData, Reply::No),
        );
    }
    assert(plan::does(p, replies, storage::Init::MeasureData)
        ==> plan::gets(p, replies, storage::Init::StatData, Reply::No)
        || plan::gets(p, replies, storage::Init::FindData, Reply::Yes)
        || plan::manages(p, replies, storage::Init::AttachData)) by {
        plan::lemma_way_in(
            p,
            replies,
            |x: storage::Init|
                x == storage::Init::MeasureData || x == storage::Init::CreatePool
                    || x == storage::Init::DetachMetadata || x == storage::Init::AskDataLoop
                    || x == storage::Init::DetachData || x == storage::Init::Done,
            plan::either(plan::getting(storage::Init::StatData, Reply::No), plan::either(plan::getting(storage::Init::FindData, Reply::Yes), plan::managing(storage::Init::AttachData))),
        );
        plan::lemma_either(
            p,
            replies,
            plan::getting(storage::Init::StatData, Reply::No),
            plan::either(plan::getting(storage::Init::FindData, Reply::Yes), plan::managing(storage::Init::AttachData)),
        );
        plan::lemma_either(
            p,
            replies,
            plan::getting(storage::Init::FindData, Reply::Yes),
            plan::managing(storage::Init::AttachData),
        );
    }
    assert(plan::does(p, replies, storage::Init::CreatePool)
        ==> plan::manages(p, replies, storage::Init::MeasureData)) by {
        plan::lemma_way_in(
            p,
            replies,
            |x: storage::Init| x == storage::Init::CreatePool || x == storage::Init::Done,
            plan::managing(storage::Init::MeasureData),
        );
    }
    assert(plan::does(p, replies, storage::Init::DetachMetadataOnly)
        ==> plan::gets(p, replies, storage::Init::StatData, Reply::Error)
        || plan::gets(p, replies, storage::Init::FindData, Reply::Error)
        || plan::gets(p, replies, storage::Init::AttachData, Reply::Error)) by {
        plan::lemma_way_in(
            p,
            replies,
            |x: storage::Init| x == storage::Init::DetachMetadataOnly,
            plan::either(plan::getting(storage::Init::StatData, Reply::Error), plan::either(plan::getting(storage::Init::FindData, Reply::Error), plan::getting(storage::Init::AttachData, Reply::Error))),
        );
        plan::lemma_either(
            p,
            replies,
            plan::getting(storage::Init::StatData, Reply::Error),
            plan::either(plan::getting(storage::Init::FindData, Reply::Error), plan::getting(storage::Init::AttachData, Reply::Error)),
        );
        plan::lemma_either(
            p,
            replies,
            plan::getting(storage::Init::FindData, Reply::Error),
            plan::getting(storage::Init::AttachData, Reply::Error),
        );
    }
    assert(plan::does(p, replies, storage::Init::DetachMetadata)
        ==> plan::gets(p, replies, storage::Init::MeasureData, Reply::Error)
        || plan::gets(p, replies, storage::Init::CreatePool, Reply::Error)) by {
        plan::lemma_way_in(
            p,
            replies,
            |x: storage::Init|
                x == storage::Init::DetachMetadata || x == storage::Init::AskDataLoop
                    || x == storage::Init::DetachData,
            plan::either(plan::getting(storage::Init::MeasureData, Reply::Error), plan::getting(storage::Init::CreatePool, Reply::Error)),
        );
        plan::lemma_either(
            p,
            replies,
            plan::getting(storage::Init::MeasureData, Reply::Error),
            plan::getting(storage::Init::CreatePool, Reply::Error),
        );
    }
    assert(plan::does(p, replies, storage::Init::AskDataLoop)
        ==> plan::does(p, replies, storage::Init::DetachMetadata)) by {
        plan::lemma_way_in(
            p,
            replies,
            |x: storage::Init|
                x == storage::Init::AskDataLoop || x == storage::Init::DetachData,
            plan::doing(storage::Init::DetachMetadata),
        );
    }
    assert(plan::does(p, replies, storage::Init::DetachData)
        ==> plan::gets(p, replies, storage::Init::AskDataLoop, Reply::Yes)) by {
        plan::lemma_way_in(
            p,
            replies,
            |x: storage::Init| x == storage::Init::DetachData,
            plan::getting(storage::Init::AskDataLoop, Reply::Yes),
        );
    }
    assert(end == storage::Init::Done ==> plan::manages(p, replies, storage::Init::CreatePool)) by {
        plan::lemma_way_in(
            p,
            replies,
            |x: storage::Init| x == storage::Init::Done,
            plan::managing(storage::Init::CreatePool),
        );
    }
    assert(end == storage::Init::Done ==> plan::manages(p, replies, storage::Init::RequirePath)) by {
        plan::lemma_way_in(
            p,
            replies,
            |x: storage::Init|
                x != storage::Init::RequirePath && x != storage::Init::Failed,
            plan::managing(storage::Init::RequirePath),
        );
    }
    assert(end == storage::Init::Done ==> plan::does(p, replies, storage::Init::LoadModule)) by {
        plan::lemma_way_in(
            p,
            replies,
            |x: storage::Init|
                x != storage::Init::RequirePath && x != storage::Init::LoadModule
                    && x != storage::Init::Failed,
            plan::doing(storage::Init::LoadModule),
        );
    }
    assert(end == storage::Init::Done ==> plan::manages(p, replies, storage::Init::ListTargets)) by {
        plan::lemma_way_in(
            p,
            replies,
            |x: storage::Init|
                x != storage::Init::RequirePath && x != storage::Init::LoadModule
                    && x != storage::Init::ListTargets && x != storage::Init::Failed,
            plan::managing(storage::Init::ListTargets),
        );
    }
    assert(end == storage::Init::Done ==> plan::manages(p, replies, storage::Init::Layout)) by {
        plan::lemma_way_in(
            p,
            replies,
            |x: storage::Init|
                x != storage::Init::RequirePath && x != storage::Init::LoadModule
                    && x != storage::Init::ListTargets && x != storage::Init::Layout
                    && x != storage::Init::Failed,
            plan::managing(storage::Init::Layout),
        );
    }
    assert(end == storage::Init::Done ==> plan::manages(p, replies, storage::Init::Metadata)) by {
        plan::lemma_way_in(
            p,
            replies,
            |x: storage::Init|
                x != storage::Init::RequirePath && x != storage::Init::LoadModule
                    && x != storage::Init::ListTargets && x != storage::Init::Layout
                    && x != storage::Init::MeasureDevice && x != storage::Init::Metadata
                    && x != storage::Init::Failed,
            plan::managing(storage::Init::Metadata),
        );
    }
    assert(end == storage::Init::Done ==> plan::manages(p, replies, storage::Init::AskMetadataFile)) by {
        plan::lemma_way_in(
            p,
            replies,
            |x: storage::Init|
                x != storage::Init::RequirePath && x != storage::Init::LoadModule
                    && x != storage::Init::ListTargets && x != storage::Init::Layout
                    && x != storage::Init::MeasureDevice && x != storage::Init::Metadata
                    && x != storage::Init::AskMetadataSize
                    && x != storage::Init::AskMetadataFile && x != storage::Init::Failed,
            plan::managing(storage::Init::AskMetadataFile),
        );
    }
    assert(end == storage::Init::Done ==> plan::manages(p, replies, storage::Init::AskDataFile)) by {
        plan::lemma_way_in(
            p,
            replies,
            |x: storage::Init|
                x != storage::Init::RequirePath && x != storage::Init::LoadModule
                    && x != storage::Init::ListTargets && x != storage::Init::Layout
                    && x != storage::Init::MeasureDevice && x != storage::Init::Metadata
                    && x != storage::Init::AskMetadataSize
                    && x != storage::Init::AskMetadataFile
                    && x != storage::Init::MakeMetadataDir && x != storage::Init::CreateMetadata
                    && x != storage::Init::AskDataFile && x != storage::Init::Failed,
            plan::managing(storage::Init::AskDataFile),
        );
    }
    assert(end == storage::Init::Done ==> plan::manages(p, replies, storage::Init::ZeroHead)) by {
        plan::lemma_way_in(
            p,
            replies,
            |x: storage::Init|
                x == storage::Init::FindMetadata || x == storage::Init::AttachMetadata
                    || x == storage::Init::StatData || x == storage::Init::FindData
                    || x == storage::Init::AttachData || x == storage::Init::MeasureData
                    || x == storage::Init::CreatePool || x == storage::Init::DetachMetadataOnly
                    || x == storage::Init::DetachMetadata || x == storage::Init::AskDataLoop
                    || x == storage::Init::DetachData || x == storage::Init::Done,
            plan::managing(storage::Init::ZeroHead),
        );
    }
    assert(end == storage::Init::Done ==> plan::manages(p, replies, storage::Init::FindMetadata)) by {
        plan::lemma_way_in(
            p,
            replies,
            |x: storage::Init|
                x == storage::Init::AttachMetadata || x == storage::Init::StatData
                    || x == storage::Init::FindData || x == storage::Init::AttachData
                    || x == storage::Init::MeasureData || x == storage::Init::CreatePool
                    || x == storage::Init::DetachMetadataOnly
                    || x == storage::Init::DetachMetadata || x == storage::Init::AskDataLoop
                    || x == storage::Init::DetachData || x == storage::Init::Done,
            plan::managing(storage::Init::FindMetadata),
        );
    }
    assert(end == storage::Init::Done ==> plan::manages(p, replies, storage::Init::StatData)) by {
        plan::lemma_way_in(
            p,
            replies,
            |x: storage::Init|
                x == storage::Init::FindData || x == storage::Init::AttachData
                    || x == storage::Init::MeasureData || x == storage::Init::CreatePool
                    || x == storage::Init::DetachMetadata || x == storage::Init::AskDataLoop
                    || x == storage::Init::DetachData || x == storage::Init::Done,
            plan::managing(storage::Init::StatData),
        );
    }
    assert(end == storage::Init::Done ==> plan::manages(p, replies, storage::Init::MeasureData)) by {
        plan::lemma_way_in(
            p,
            replies,
            |x: storage::Init| x == storage::Init::CreatePool || x == storage::Init::Done,
            plan::managing(storage::Init::MeasureData),
        );
    }
    assert(end == storage::Init::Failed
        ==> plan::gets(p, replies, storage::Init::RequirePath, Reply::Error)
        || plan::gets(p, replies, storage::Init::ListTargets, Reply::Error)
        || plan::gets(p, replies, storage::Init::Layout, Reply::Error)
        || plan::gets(p, replies, storage::Init::MeasureDevice, Reply::Error)
        || plan::gets(p, replies, storage::Init::Metadata, Reply::Error)
        || plan::gets(p, replies, storage::Init::AskMetadataSize, Reply::Error)
        || plan::gets(p, replies, storage::Init::AskMetadataFile, Reply::Error)
        || plan::gets(p, replies, storage::Init::MakeMetadataDir, Reply::Error)
        || plan::gets(p, replies, storage::Init::CreateMetadata, Reply::Error)
        || plan::gets(p, replies, storage::Init::AskDataFile, Reply::Error)
        || plan::gets(p, replies, storage::Init::MakeDataDir, Reply::Error)
        || plan::gets(p, replies, storage::Init::AskDataMissing, Reply::Error)
        || plan::gets(p, replies, storage::Init::CreateData, Reply::Error)
        || plan::gets(p, replies, storage::Init::ZeroHead, Reply::Error)
        || plan::gets(p, replies, storage::Init::FindMetadata, Reply::Error)
        || plan::gets(p, replies, storage::Init::AttachMetadata, Reply::Error)
        || plan::does(p, replies, storage::Init::DetachMetadataOnly)
        || plan::gets(p, replies, storage::Init::AskDataLoop, Reply::No)
        || plan::gets(p, replies, storage::Init::AskDataLoop, Reply::Error)
        || plan::does(p, replies, storage::Init::DetachData)) by {
        plan::lemma_way_in(
            p,
            replies,
            |x: storage::Init| x == storage::Init::Failed,
            plan::either(plan::getting(storage::Init::RequirePath, Reply::Error), plan::either(plan::getting(storage::Init::ListTargets, Reply::Error), plan::either(plan::getting(storage::Init::Layout, Reply::Error), plan::either(plan::getting(storage::Init::MeasureDevice, Reply::Error), plan::either(plan::getting(storage::Init::Metadata, Reply::Error), plan::either(plan::getting(storage::Init::AskMetadataSize, Reply::Error), plan::either(plan::getting(storage::Init::AskMetadataFile, Reply::Error), plan::either(plan::getting(storage::Init::MakeMetadataDir, Reply::Error), plan::either(plan::getting(storage::Init::CreateMetadata, Reply::Error), plan::either(plan::getting(storage::Init::AskDataFile, Reply::Error), plan::either(plan::getting(storage::Init::MakeDataDir, Reply::Error), plan::either(plan::getting(storage::Init::AskDataMissing, Reply::Error), plan::either(plan::getting(storage::Init::CreateData, Reply::Error), plan::either(plan::getting(storage::Init::ZeroHead, Reply::Error), plan::either(plan::getting(storage::Init::FindMetadata, Reply::Error), plan::either(plan::getting(storage::Init::AttachMetadata, Reply::Error), plan::either(plan::doing(storage::Init::DetachMetadataOnly), plan::either(plan::getting(storage::Init::AskDataLoop, Reply::No), plan::either(plan::getting(storage::Init::AskDataLoop, Reply::Error), plan::doing(storage::Init::DetachData)))))))))))))))))))),
        );
        plan::lemma_either(
            p,
            replies,
            plan::getting(storage::Init::RequirePath, Reply::Error),
            plan::either(plan::getting(storage::Init::ListTargets, Reply::Error), plan::either(plan::getting(storage::Init::Layout, Reply::Error), plan::either(plan::getting(storage::Init::MeasureDevice, Reply::Error), plan::either(plan::getting(storage::Init::Metadata, Reply::Error), plan::either(plan::getting(storage::Init::AskMetadataSize, Reply::Error), plan::either(plan::getting(storage::Init::AskMetadataFile, Reply::Error), plan::either(plan::getting(storage::Init::MakeMetadataDir, Reply::Error), plan::either(plan::getting(storage::Init::CreateMetadata, Reply::Error), plan::either(plan::getting(storage::Init::AskDataFile, Reply::Error), plan::either(plan::getting(storage::Init::MakeDataDir, Reply::Error), plan::either(plan::getting(storage::Init::AskDataMissing, Reply::Error), plan::either(plan::getting(storage::Init::CreateData, Reply::Error), plan::either(plan::getting(storage::Init::ZeroHead, Reply::Error), plan::either(plan::getting(storage::Init::FindMetadata, Reply::Error), plan::either(plan::getting(storage::Init::AttachMetadata, Reply::Error), plan::either(plan::doing(storage::Init::DetachMetadataOnly), plan::either(plan::getting(storage::Init::AskDataLoop, Reply::No), plan::either(plan::getting(storage::Init::AskDataLoop, Reply::Error), plan::doing(storage::Init::DetachData))))))))))))))))))),
        );
        plan::lemma_either(
            p,
            replies,
            plan::getting(storage::Init::ListTargets, Reply::Error),
            plan::either(plan::getting(storage::Init::Layout, Reply::Error), plan::either(plan::getting(storage::Init::MeasureDevice, Reply::Error), plan::either(plan::getting(storage::Init::Metadata, Reply::Error), plan::either(plan::getting(storage::Init::AskMetadataSize, Reply::Error), plan::either(plan::getting(storage::Init::AskMetadataFile, Reply::Error), plan::either(plan::getting(storage::Init::MakeMetadataDir, Reply::Error), plan::either(plan::getting(storage::Init::CreateMetadata, Reply::Error), plan::either(plan::getting(storage::Init::AskDataFile, Reply::Error), plan::either(plan::getting(storage::Init::MakeDataDir, Reply::Error), plan::either(plan::getting(storage::Init::AskDataMissing, Reply::Error), plan::either(plan::getting(storage::Init::CreateData, Reply::Error), plan::either(plan::getting(storage::Init::ZeroHead, Reply::Error), plan::either(plan::getting(storage::Init::FindMetadata, Reply::Error), plan::either(plan::getting(storage::Init::AttachMetadata, Reply::Error), plan::either(plan::doing(storage::Init::DetachMetadataOnly), plan::either(plan::getting(storage::Init::AskDataLoop, Reply::No), plan::either(plan::getting(storage::Init::AskDataLoop, Reply::Error), plan::doing(storage::Init::DetachData)))))))))))))))))),
        );
        plan::lemma_either(
            p,
            replies,
            plan::getting(storage::Init::Layout, Reply::Error),
            plan::either(plan::getting(storage::Init::MeasureDevice, Reply::Error), plan::either(plan::getting(storage::Init::Metadata, Reply::Error), plan::either(plan::getting(storage::Init::AskMetadataSize, Reply::Error), plan::either(plan::getting(storage::Init::AskMetadataFile, Reply::Error), plan::either(plan::getting(storage::Init::MakeMetadataDir, Reply::Error), plan::either(plan::getting(storage::Init::CreateMetadata, Reply::Error), plan::either(plan::getting(storage::Init::AskDataFile, Reply::Error), plan::either(plan::getting(storage::Init::MakeDataDir, Reply::Error), plan::either(plan::getting(storage::Init::AskDataMissing, Reply::Error), plan::either(plan::getting(storage::Init::CreateData, Reply::Error), plan::either(plan::getting(storage::Init::ZeroHead, Reply::Error), plan::either(plan::getting(storage::Init::FindMetadata, Reply::Error), plan::either(plan::getting(storage::Init::AttachMetadata, Reply::Error), plan::either(plan::doing(storage::Init::DetachMetadataOnly), plan::either(plan::getting(storage::Init::AskDataLoop, Reply::No), plan::either(plan::getting(storage::Init::AskDataLoop, Reply::Error), plan::doing(storage::Init::DetachData))))))))))))))))),
        );
        plan::lemma_either(
            p,
            replies,
            plan::getting(storage::Init::MeasureDevice, Reply::Error),
            plan::either(plan::getting(storage::Init::Metadata, Reply::Error), plan::either(plan::getting(storage::Init::AskMetadataSize, Reply::Error), plan::either(plan::getting(storage::Init::AskMetadataFile, Reply::Error), plan::either(plan::getting(storage::Init::MakeMetadataDir, Reply::Error), plan::either(plan::getting(storage::Init::CreateMetadata, Reply::Error), plan::either(plan::getting(storage::Init::AskDataFile, Reply::Error), plan::either(plan::getting(storage::Init::MakeDataDir, Reply::Error), plan::either(plan::getting(storage::Init::AskDataMissing, Reply::Error), plan::either(plan::getting(storage::Init::CreateData, Reply::Error), plan::either(plan::getting(storage::Init::ZeroHead, Reply::Error), plan::either(plan::getting(storage::Init::FindMetadata, Reply::Error), plan::either(plan::getting(storage::Init::AttachMetadata, Reply::Error), plan::either(plan::doing(storage::Init::DetachMetadataOnly), plan::either(plan::getting(storage::Init::AskDataLoop, Reply::No), plan::either(plan::getting(storage::Init::AskDataLoop, Reply::Error), plan::doing(storage::Init::DetachData)))))))))))))))),
        );
        plan::lemma_either(
            p,
            replies,
            plan::getting(storage::Init::Metadata, Reply::Error),
            plan::either(plan::getting(storage::Init::AskMetadataSize, Reply::Error), plan::either(plan::getting(storage::Init::AskMetadataFile, Reply::Error), plan::either(plan::getting(storage::Init::MakeMetadataDir, Reply::Error), plan::either(plan::getting(storage::Init::CreateMetadata, Reply::Error), plan::either(plan::getting(storage::Init::AskDataFile, Reply::Error), plan::either(plan::getting(storage::Init::MakeDataDir, Reply::Error), plan::either(plan::getting(storage::Init::AskDataMissing, Reply::Error), plan::either(plan::getting(storage::Init::CreateData, Reply::Error), plan::either(plan::getting(storage::Init::ZeroHead, Reply::Error), plan::either(plan::getting(storage::Init::FindMetadata, Reply::Error), plan::either(plan::getting(storage::Init::AttachMetadata, Reply::Error), plan::either(plan::doing(storage::Init::DetachMetadataOnly), plan::either(plan::getting(storage::Init::AskDataLoop, Reply::No), plan::either(plan::getting(storage::Init::AskDataLoop, Reply::Error), plan::doing(storage::Init::DetachData))))))))))))))),
        );
        plan::lemma_either(
            p,
            replies,
            plan::getting(storage::Init::AskMetadataSize, Reply::Error),
            plan::either(plan::getting(storage::Init::AskMetadataFile, Reply::Error), plan::either(plan::getting(storage::Init::MakeMetadataDir, Reply::Error), plan::either(plan::getting(storage::Init::CreateMetadata, Reply::Error), plan::either(plan::getting(storage::Init::AskDataFile, Reply::Error), plan::either(plan::getting(storage::Init::MakeDataDir, Reply::Error), plan::either(plan::getting(storage::Init::AskDataMissing, Reply::Error), plan::either(plan::getting(storage::Init::CreateData, Reply::Error), plan::either(plan::getting(storage::Init::ZeroHead, Reply::Error), plan::either(plan::getting(storage::Init::FindMetadata, Reply::Error), plan::either(plan::getting(storage::Init::AttachMetadata, Reply::Error), plan::either(plan::doing(storage::Init::DetachMetadataOnly), plan::either(plan::getting(storage::Init::AskDataLoop, Reply::No), plan::either(plan::getting(storage::Init::AskDataLoop, Reply::Error), plan::doing(storage::Init::DetachData)))))))))))))),
        );
        plan::lemma_either(
            p,
            replies,
            plan::getting(storage::Init::AskMetadataFile, Reply::Error),
            plan::either(plan::getting(storage::Init::MakeMetadataDir, Reply::Error), plan::either(plan::getting(storage::Init::CreateMetadata, Reply::Error), plan::either(plan::getting(storage::Init::AskDataFile, Reply::Error), plan::either(plan::getting(storage::Init::MakeDataDir, Reply::Error), plan::either(plan::getting(storage::Init::AskDataMissing, Reply::Error), plan::either(plan::getting(storage::Init::CreateData, Reply::Error), plan::either(plan::getting(storage::Init::ZeroHead, Reply::Error), plan::either(plan::getting(storage::Init::FindMetadata, Reply::Error), plan::either(plan::getting(storage::Init::AttachMetadata, Reply::Error), plan::either(plan::doing(storage::Init::DetachMetadataOnly), plan::either(plan::getting(storage::Init::AskDataLoop, Reply::No), plan::either(plan::getting(storage::Init::AskDataLoop, Reply::Error), plan::doing(storage::Init::DetachData))))))))))))),
        );
        plan::lemma_either(
            p,
            replies,
            plan::getting(storage::Init::MakeMetadataDir, Reply::Error),
            plan::either(plan::getting(storage::Init::CreateMetadata, Reply::Error), plan::either(plan::getting(storage::Init::AskDataFile, Reply::Error), plan::either(plan::getting(storage::Init::MakeDataDir, Reply::Error), plan::either(plan::getting(storage::Init::AskDataMissing, Reply::Error), plan::either(plan::getting(storage::Init::CreateData, Reply::Error), plan::either(plan::getting(storage::Init::ZeroHead, Reply::Error), plan::either(plan::getting(storage::Init::FindMetadata, Reply::Error), plan::either(plan::getting(storage::Init::AttachMetadata, Reply::Error), plan::either(plan::doing(storage::Init::DetachMetadataOnly), plan::either(plan::getting(storage::Init::AskDataLoop, Reply::No), plan::either(plan::getting(storage::Init::AskDataLoop, Reply::Error), plan::doing(storage::Init::DetachData)))))))))))),
        );
        plan::lemma_either(
            p,
            replies,
            plan::getting(storage::Init::CreateMetadata, Reply::Error),
            plan::either(plan::getting(storage::Init::AskDataFile, Reply::Error), plan::either(plan::getting(storage::Init::MakeDataDir, Reply::Error), plan::either(plan::getting(storage::Init::AskDataMissing, Reply::Error), plan::either(plan::getting(storage::Init::CreateData, Reply::Error), plan::either(plan::getting(storage::Init::ZeroHead, Reply::Error), plan::either(plan::getting(storage::Init::FindMetadata, Reply::Error), plan::either(plan::getting(storage::Init::AttachMetadata, Reply::Error), plan::either(plan::doing(storage::Init::DetachMetadataOnly), plan::either(plan::getting(storage::Init::AskDataLoop, Reply::No), plan::either(plan::getting(storage::Init::AskDataLoop, Reply::Error), plan::doing(storage::Init::DetachData))))))))))),
        );
        plan::lemma_either(
            p,
            replies,
            plan::getting(storage::Init::AskDataFile, Reply::Error),
            plan::either(plan::getting(storage::Init::MakeDataDir, Reply::Error), plan::either(plan::getting(storage::Init::AskDataMissing, Reply::Error), plan::either(plan::getting(storage::Init::CreateData, Reply::Error), plan::either(plan::getting(storage::Init::ZeroHead, Reply::Error), plan::either(plan::getting(storage::Init::FindMetadata, Reply::Error), plan::either(plan::getting(storage::Init::AttachMetadata, Reply::Error), plan::either(plan::doing(storage::Init::DetachMetadataOnly), plan::either(plan::getting(storage::Init::AskDataLoop, Reply::No), plan::either(plan::getting(storage::Init::AskDataLoop, Reply::Error), plan::doing(storage::Init::DetachData)))))))))),
        );
        plan::lemma_either(
            p,
            replies,
            plan::getting(storage::Init::MakeDataDir, Reply::Error),
            plan::either(plan::getting(storage::Init::AskDataMissing, Reply::Error), plan::either(plan::getting(storage::Init::CreateData, Reply::Error), plan::either(plan::getting(storage::Init::ZeroHead, Reply::Error), plan::either(plan::getting(storage::Init::FindMetadata, Reply::Error), plan::either(plan::getting(storage::Init::AttachMetadata, Reply::Error), plan::either(plan::doing(storage::Init::DetachMetadataOnly), plan::either(plan::getting(storage::Init::AskDataLoop, Reply::No), plan::either(plan::getting(storage::Init::AskDataLoop, Reply::Error), plan::doing(storage::Init::DetachData))))))))),
        );
        plan::lemma_either(
            p,
            replies,
            plan::getting(storage::Init::AskDataMissing, Reply::Error),
            plan::either(plan::getting(storage::Init::CreateData, Reply::Error), plan::either(plan::getting(storage::Init::ZeroHead, Reply::Error), plan::either(plan::getting(storage::Init::FindMetadata, Reply::Error), plan::either(plan::getting(storage::Init::AttachMetadata, Reply::Error), plan::either(plan::doing(storage::Init::DetachMetadataOnly), plan::either(plan::getting(storage::Init::AskDataLoop, Reply::No), plan::either(plan::getting(storage::Init::AskDataLoop, Reply::Error), plan::doing(storage::Init::DetachData)))))))),
        );
        plan::lemma_either(
            p,
            replies,
            plan::getting(storage::Init::CreateData, Reply::Error),
            plan::either(plan::getting(storage::Init::ZeroHead, Reply::Error), plan::either(plan::getting(storage::Init::FindMetadata, Reply::Error), plan::either(plan::getting(storage::Init::AttachMetadata, Reply::Error), plan::either(plan::doing(storage::Init::DetachMetadataOnly), plan::either(plan::getting(storage::Init::AskDataLoop, Reply::No), plan::either(plan::getting(storage::Init::AskDataLoop, Reply::Error), plan::doing(storage::Init::DetachData))))))),
        );
        plan::lemma_either(
            p,
            replies,
            plan::getting(storage::Init::ZeroHead, Reply::Error),
            plan::either(plan::getting(storage::Init::FindMetadata, Reply::Error), plan::either(plan::getting(storage::Init::AttachMetadata, Reply::Error), plan::either(plan::doing(storage::Init::DetachMetadataOnly), plan::either(plan::getting(storage::Init::AskDataLoop, Reply::No), plan::either(plan::getting(storage::Init::AskDataLoop, Reply::Error), plan::doing(storage::Init::DetachData)))))),
        );
        plan::lemma_either(
            p,
            replies,
            plan::getting(storage::Init::FindMetadata, Reply::Error),
            plan::either(plan::getting(storage::Init::AttachMetadata, Reply::Error), plan::either(plan::doing(storage::Init::DetachMetadataOnly), plan::either(plan::getting(storage::Init::AskDataLoop, Reply::No), plan::either(plan::getting(storage::Init::AskDataLoop, Reply::Error), plan::doing(storage::Init::DetachData))))),
        );
        plan::lemma_either(
            p,
            replies,
            plan::getting(storage::Init::AttachMetadata, Reply::Error),
            plan::either(plan::doing(storage::Init::DetachMetadataOnly), plan::either(plan::getting(storage::Init::AskDataLoop, Reply::No), plan::either(plan::getting(storage::Init::AskDataLoop, Reply::Error), plan::doing(storage::Init::DetachData)))),
        );
        plan::lemma_either(
            p,
            replies,
            plan::doing(storage::Init::DetachMetadataOnly),
            plan::either(plan::getting(storage::Init::AskDataLoop, Reply::No), plan::either(plan::getting(storage::Init::AskDataLoop, Reply::Error), plan::doing(storage::Init::DetachData))),
        );
        plan::lemma_either(
            p,
            replies,
            plan::getting(storage::Init::AskDataLoop, Reply::No),
            plan::either(plan::getting(storage::Init::AskDataLoop, Reply::Error), plan::doing(storage::Init::DetachData)),
        );
        plan::lemma_either(
            p,
            replies,
            plan::getting(storage::Init::AskDataLoop, Reply::Error),
            plan::doing(storage::Init::DetachData),
        );
    }
}

/// An image is written to a volume that was allocated and activated for it, in a pool
/// that is healthy. A phase is done only after the ones it needs, and the work is
/// done only where all of them were.
pub proof fn law_image_order(replies: Seq<Reply>)
    ensures
        ({
            let p = storage::ImageVolume::EnsurePool;
            let end = plan::reached(p, replies);
            &&& !storage::ImageVolume::Done.doomed()
            &&& storage::ImageVolume::Failed.doomed()
            &&& plan::does(p, replies, storage::ImageVolume::CheckHealth)
                ==> plan::manages(p, replies, storage::ImageVolume::EnsurePool)
            &&& plan::does(p, replies, storage::ImageVolume::AskStaging)
                ==> plan::manages(p, replies, storage::ImageVolume::CheckHealth)
            &&& plan::does(p, replies, storage::ImageVolume::DropStaging)
                ==> plan::gets(p, replies, storage::ImageVolume::AskStaging, Reply::Yes)
            &&& plan::does(p, replies, storage::ImageVolume::Allocate)
                ==> plan::gets(p, replies, storage::ImageVolume::AskStaging, Reply::No)
                || plan::gets(p, replies, storage::ImageVolume::AskStaging, Reply::Error)
                || plan::does(p, replies, storage::ImageVolume::DropStaging)
            &&& plan::does(p, replies, storage::ImageVolume::Activate)
                ==> plan::manages(p, replies, storage::ImageVolume::Allocate)
            &&& plan::does(p, replies, storage::ImageVolume::Write)
                ==> plan::manages(p, replies, storage::ImageVolume::Activate)
            &&& plan::does(p, replies, storage::ImageVolume::Suspend)
                ==> plan::manages(p, replies, storage::ImageVolume::Write)
            &&& plan::does(p, replies, storage::ImageVolume::Snapshot)
                ==> plan::manages(p, replies, storage::ImageVolume::Suspend)
            &&& plan::does(p, replies, storage::ImageVolume::Resume)
                ==> plan::manages(p, replies, storage::ImageVolume::Snapshot)
            &&& plan::does(p, replies, storage::ImageVolume::Deactivate)
                ==> plan::does(p, replies, storage::ImageVolume::Resume)
            &&& plan::does(p, replies, storage::ImageVolume::Delete)
                ==> plan::does(p, replies, storage::ImageVolume::Deactivate)
            &&& plan::does(p, replies, storage::ImageVolume::ResumeFailed)
                ==> plan::gets(p, replies, storage::ImageVolume::Snapshot, Reply::Error)
            &&& plan::does(p, replies, storage::ImageVolume::DeactivateFailed)
                ==> plan::gets(p, replies, storage::ImageVolume::Write, Reply::Error)
                || plan::gets(p, replies, storage::ImageVolume::Suspend, Reply::Error)
                || plan::does(p, replies, storage::ImageVolume::ResumeFailed)
            &&& plan::does(p, replies, storage::ImageVolume::DeleteFailed)
                ==> plan::gets(p, replies, storage::ImageVolume::Activate, Reply::Error)
                || plan::does(p, replies, storage::ImageVolume::DeactivateFailed)
            &&& end == storage::ImageVolume::Done
                ==> plan::does(p, replies, storage::ImageVolume::Delete)
            &&& end == storage::ImageVolume::Done
                ==> plan::manages(p, replies, storage::ImageVolume::EnsurePool)
            &&& end == storage::ImageVolume::Done
                ==> plan::manages(p, replies, storage::ImageVolume::CheckHealth)
            &&& end == storage::ImageVolume::Done
                ==> plan::does(p, replies, storage::ImageVolume::AskStaging)
            &&& end == storage::ImageVolume::Done
                ==> plan::manages(p, replies, storage::ImageVolume::Allocate)
            &&& end == storage::ImageVolume::Done
                ==> plan::manages(p, replies, storage::ImageVolume::Activate)
            &&& end == storage::ImageVolume::Done
                ==> plan::manages(p, replies, storage::ImageVolume::Write)
            &&& end == storage::ImageVolume::Done
                ==> plan::manages(p, replies, storage::ImageVolume::Suspend)
            &&& end == storage::ImageVolume::Done
                ==> plan::manages(p, replies, storage::ImageVolume::Snapshot)
            &&& end == storage::ImageVolume::Done
                ==> plan::does(p, replies, storage::ImageVolume::Resume)
            &&& end == storage::ImageVolume::Done
                ==> plan::does(p, replies, storage::ImageVolume::Deactivate)
            &&& end == storage::ImageVolume::Failed
                ==> plan::gets(p, replies, storage::ImageVolume::EnsurePool, Reply::Error)
                || plan::gets(p, replies, storage::ImageVolume::CheckHealth, Reply::Error)
                || plan::gets(p, replies, storage::ImageVolume::Allocate, Reply::Error)
                || plan::does(p, replies, storage::ImageVolume::DeleteFailed)
        }),
{
    let p = storage::ImageVolume::EnsurePool;
    let end = plan::reached(p, replies);
    assert(plan::does(p, replies, storage::ImageVolume::CheckHealth)
        ==> plan::manages(p, replies, storage::ImageVolume::EnsurePool)) by {
        plan::lemma_way_in(
            p,
            replies,
            |x: storage::ImageVolume|
                x != storage::ImageVolume::EnsurePool && x != storage::ImageVolume::Failed,
            plan::managing(storage::ImageVolume::EnsurePool),
        );
    }
    assert(plan::does(p, replies, storage::ImageVolume::AskStaging)
        ==> plan::manages(p, replies, storage::ImageVolume::CheckHealth)) by {
        plan::lemma_way_in(
            p,
            replies,
            |x: storage::ImageVolume|
                x != storage::ImageVolume::EnsurePool && x != storage::ImageVolume::CheckHealth
                    && x != storage::ImageVolume::Failed,
            plan::managing(storage::ImageVolume::CheckHealth),
        );
    }
    assert(plan::does(p, replies, storage::ImageVolume::DropStaging)
        ==> plan::gets(p, replies, storage::ImageVolume::AskStaging, Reply::Yes)) by {
        plan::lemma_way_in(
            p,
            replies,
            |x: storage::ImageVolume| x == storage::ImageVolume::DropStaging,
            plan::getting(storage::ImageVolume::AskStaging, Reply::Yes),
        );
    }
    assert(plan::does(p, replies, storage::ImageVolume::Allocate)
        ==> plan::gets(p, replies, storage::ImageVolume::AskStaging, Reply::No)
        || plan::gets(p, replies, storage::ImageVolume::AskStaging, Reply::Error)
        || plan::does(p, replies, storage::ImageVolume::DropStaging)) by {
        plan::lemma_way_in(
            p,
            replies,
            |x: storage::ImageVolume|
                x != storage::ImageVolume::EnsurePool && x != storage::ImageVolume::CheckHealth
                    && x != storage::ImageVolume::AskStaging
                    && x != storage::ImageVolume::DropStaging
                    && x != storage::ImageVolume::Failed,
            plan::either(plan::getting(storage::ImageVolume::AskStaging, Reply::No), plan::either(plan::getting(storage::ImageVolume::AskStaging, Reply::Error), plan::doing(storage::ImageVolume::DropStaging))),
        );
        plan::lemma_either(
            p,
            replies,
            plan::getting(storage::ImageVolume::AskStaging, Reply::No),
            plan::either(plan::getting(storage::ImageVolume::AskStaging, Reply::Error), plan::doing(storage::ImageVolume::DropStaging)),
        );
        plan::lemma_either(
            p,
            replies,
            plan::getting(storage::ImageVolume::AskStaging, Reply::Error),
            plan::doing(storage::ImageVolume::DropStaging),
        );
    }
    assert(plan::does(p, replies, storage::ImageVolume::Activate)
        ==> plan::manages(p, replies, storage::ImageVolume::Allocate)) by {
        plan::lemma_way_in(
            p,
            replies,
            |x: storage::ImageVolume|
                x != storage::ImageVolume::EnsurePool && x != storage::ImageVolume::CheckHealth
                    && x != storage::ImageVolume::AskStaging
                    && x != storage::ImageVolume::DropStaging
                    && x != storage::ImageVolume::Allocate && x != storage::ImageVolume::Failed,
            plan::managing(storage::ImageVolume::Allocate),
        );
    }
    assert(plan::does(p, replies, storage::ImageVolume::Write)
        ==> plan::manages(p, replies, storage::ImageVolume::Activate)) by {
        plan::lemma_way_in(
            p,
            replies,
            |x: storage::ImageVolume|
                x != storage::ImageVolume::EnsurePool && x != storage::ImageVolume::CheckHealth
                    && x != storage::ImageVolume::AskStaging
                    && x != storage::ImageVolume::DropStaging
                    && x != storage::ImageVolume::Allocate
                    && x != storage::ImageVolume::Activate
                    && x != storage::ImageVolume::DeleteFailed
                    && x != storage::ImageVolume::Failed,
            plan::managing(storage::ImageVolume::Activate),
        );
    }
    assert(plan::does(p, replies, storage::ImageVolume::Suspend)
        ==> plan::manages(p, replies, storage::ImageVolume::Write)) by {
        plan::lemma_way_in(
            p,
            replies,
            |x: storage::ImageVolume|
                x == storage::ImageVolume::Suspend || x == storage::ImageVolume::Snapshot
                    || x == storage::ImageVolume::Resume
                    || x == storage::ImageVolume::Deactivate
                    || x == storage::ImageVolume::Delete
                    || x == storage::ImageVolume::ResumeFailed
                    || x == storage::ImageVolume::Done,
            plan::managing(storage::ImageVolume::Write),
        );
    }
    assert(plan::does(p, replies, storage::ImageVolume::Snapshot)
        ==> plan::manages(p, replies, storage::ImageVolume::Suspend)) by {
        plan::lemma_way_in(
            p,
            replies,
            |x: storage::ImageVolume|
                x == storage::ImageVolume::Snapshot || x == storage::ImageVolume::Resume
                    || x == storage::ImageVolume::Deactivate
                    || x == storage::ImageVolume::Delete
                    || x == storage::ImageVolume::ResumeFailed
                    || x == storage::ImageVolume::Done,
            plan::managing(storage::ImageVolume::Suspend),
        );
    }
    assert(plan::does(p, replies, storage::ImageVolume::Resume)
        ==> plan::manages(p, replies, storage::ImageVolume::Snapshot)) by {
        plan::lemma_way_in(
            p,
            replies,
            |x: storage::ImageVolume|
                x == storage::ImageVolume::Resume || x == storage::ImageVolume::Deactivate
                    || x == storage::ImageVolume::Delete || x == storage::ImageVolume::Done,
            plan::managing(storage::ImageVolume::Snapshot),
        );
    }
    assert(plan::does(p, replies, storage::ImageVolume::Deactivate)
        ==> plan::does(p, replies, storage::ImageVolume::Resume)) by {
        plan::lemma_way_in(
            p,
            replies,
            |x: storage::ImageVolume|
                x == storage::ImageVolume::Deactivate || x == storage::ImageVolume::Delete
                    || x == storage::ImageVolume::Done,
            plan::doing(storage::ImageVolume::Resume),
        );
    }
    assert(plan::does(p, replies, storage::ImageVolume::Delete)
        ==> plan::does(p, replies, storage::ImageVolume::Deactivate)) by {
        plan::lemma_way_in(
            p,
            replies,
            |x: storage::ImageVolume|
                x == storage::ImageVolume::Delete || x == storage::ImageVolume::Done,
            plan::doing(storage::ImageVolume::Deactivate),
        );
    }
    assert(plan::does(p, replies, storage::ImageVolume::ResumeFailed)
        ==> plan::gets(p, replies, storage::ImageVolume::Snapshot, Reply::Error)) by {
        plan::lemma_way_in(
            p,
            replies,
            |x: storage::ImageVolume| x == storage::ImageVolume::ResumeFailed,
            plan::getting(storage::ImageVolume::Snapshot, Reply::Error),
        );
    }
    assert(plan::does(p, replies, storage::ImageVolume::DeactivateFailed)
        ==> plan::gets(p, replies, storage::ImageVolume::Write, Reply::Error)
        || plan::gets(p, replies, storage::ImageVolume::Suspend, Reply::Error)
        || plan::does(p, replies, storage::ImageVolume::ResumeFailed)) by {
        plan::lemma_way_in(
            p,
            replies,
            |x: storage::ImageVolume| x == storage::ImageVolume::DeactivateFailed,
            plan::either(plan::getting(storage::ImageVolume::Write, Reply::Error), plan::either(plan::getting(storage::ImageVolume::Suspend, Reply::Error), plan::doing(storage::ImageVolume::ResumeFailed))),
        );
        plan::lemma_either(
            p,
            replies,
            plan::getting(storage::ImageVolume::Write, Reply::Error),
            plan::either(plan::getting(storage::ImageVolume::Suspend, Reply::Error), plan::doing(storage::ImageVolume::ResumeFailed)),
        );
        plan::lemma_either(
            p,
            replies,
            plan::getting(storage::ImageVolume::Suspend, Reply::Error),
            plan::doing(storage::ImageVolume::ResumeFailed),
        );
    }
    assert(plan::does(p, replies, storage::ImageVolume::DeleteFailed)
        ==> plan::gets(p, replies, storage::ImageVolume::Activate, Reply::Error)
        || plan::does(p, replies, storage::ImageVolume::DeactivateFailed)) by {
        plan::lemma_way_in(
            p,
            replies,
            |x: storage::ImageVolume| x == storage::ImageVolume::DeleteFailed,
            plan::either(plan::getting(storage::ImageVolume::Activate, Reply::Error), plan::doing(storage::ImageVolume::DeactivateFailed)),
        );
        plan::lemma_either(
            p,
            replies,
            plan::getting(storage::ImageVolume::Activate, Reply::Error),
            plan::doing(storage::ImageVolume::DeactivateFailed),
        );
    }
    assert(end == storage::ImageVolume::Done ==> plan::does(p, replies, storage::ImageVolume::Delete)) by {
        plan::lemma_way_in(
            p,
            replies,
            |x: storage::ImageVolume| x == storage::ImageVolume::Done,
            plan::doing(storage::ImageVolume::Delete),
        );
    }
    assert(end == storage::ImageVolume::Done
        ==> plan::manages(p, replies, storage::ImageVolume::EnsurePool)) by {
        plan::lemma_way_in(
            p,
            replies,
            |x: storage::ImageVolume|
                x != storage::ImageVolume::EnsurePool && x != storage::ImageVolume::Failed,
            plan::managing(storage::ImageVolume::EnsurePool),
        );
    }
    assert(end == storage::ImageVolume::Done
        ==> plan::manages(p, replies, storage::ImageVolume::CheckHealth)) by {
        plan::lemma_way_in(
            p,
            replies,
            |x: storage::ImageVolume|
                x != storage::ImageVolume::EnsurePool && x != storage::ImageVolume::CheckHealth
                    && x != storage::ImageVolume::Failed,
            plan::managing(storage::ImageVolume::CheckHealth),
        );
    }
    assert(end == storage::ImageVolume::Done ==> plan::does(p, replies, storage::ImageVolume::AskStaging)) by {
        plan::lemma_way_in(
            p,
            replies,
            |x: storage::ImageVolume|
                x != storage::ImageVolume::EnsurePool && x != storage::ImageVolume::CheckHealth
                    && x != storage::ImageVolume::AskStaging
                    && x != storage::ImageVolume::Failed,
            plan::doing(storage::ImageVolume::AskStaging),
        );
    }
    assert(end == storage::ImageVolume::Done
        ==> plan::manages(p, replies, storage::ImageVolume::Allocate)) by {
        plan::lemma_way_in(
            p,
            replies,
            |x: storage::ImageVolume|
                x != storage::ImageVolume::EnsurePool && x != storage::ImageVolume::CheckHealth
                    && x != storage::ImageVolume::AskStaging
                    && x != storage::ImageVolume::DropStaging
                    && x != storage::ImageVolume::Allocate && x != storage::ImageVolume::Failed,
            plan::managing(storage::ImageVolume::Allocate),
        );
    }
    assert(end == storage::ImageVolume::Done
        ==> plan::manages(p, replies, storage::ImageVolume::Activate)) by {
        plan::lemma_way_in(
            p,
            replies,
            |x: storage::ImageVolume|
                x != storage::ImageVolume::EnsurePool && x != storage::ImageVolume::CheckHealth
                    && x != storage::ImageVolume::AskStaging
                    && x != storage::ImageVolume::DropStaging
                    && x != storage::ImageVolume::Allocate
                    && x != storage::ImageVolume::Activate
                    && x != storage::ImageVolume::DeleteFailed
                    && x != storage::ImageVolume::Failed,
            plan::managing(storage::ImageVolume::Activate),
        );
    }
    assert(end == storage::ImageVolume::Done ==> plan::manages(p, replies, storage::ImageVolume::Write)) by {
        plan::lemma_way_in(
            p,
            replies,
            |x: storage::ImageVolume|
                x == storage::ImageVolume::Suspend || x == storage::ImageVolume::Snapshot
                    || x == storage::ImageVolume::Resume
                    || x == storage::ImageVolume::Deactivate
                    || x == storage::ImageVolume::Delete
                    || x == storage::ImageVolume::ResumeFailed
                    || x == storage::ImageVolume::Done,
            plan::managing(storage::ImageVolume::Write),
        );
    }
    assert(end == storage::ImageVolume::Done ==> plan::manages(p, replies, storage::ImageVolume::Suspend)) by {
        plan::lemma_way_in(
            p,
            replies,
            |x: storage::ImageVolume|
                x == storage::ImageVolume::Snapshot || x == storage::ImageVolume::Resume
                    || x == storage::ImageVolume::Deactivate
                    || x == storage::ImageVolume::Delete
                    || x == storage::ImageVolume::ResumeFailed
                    || x == storage::ImageVolume::Done,
            plan::managing(storage::ImageVolume::Suspend),
        );
    }
    assert(end == storage::ImageVolume::Done
        ==> plan::manages(p, replies, storage::ImageVolume::Snapshot)) by {
        plan::lemma_way_in(
            p,
            replies,
            |x: storage::ImageVolume|
                x == storage::ImageVolume::Resume || x == storage::ImageVolume::Deactivate
                    || x == storage::ImageVolume::Delete || x == storage::ImageVolume::Done,
            plan::managing(storage::ImageVolume::Snapshot),
        );
    }
    assert(end == storage::ImageVolume::Done ==> plan::does(p, replies, storage::ImageVolume::Resume)) by {
        plan::lemma_way_in(
            p,
            replies,
            |x: storage::ImageVolume|
                x == storage::ImageVolume::Deactivate || x == storage::ImageVolume::Delete
                    || x == storage::ImageVolume::Done,
            plan::doing(storage::ImageVolume::Resume),
        );
    }
    assert(end == storage::ImageVolume::Done ==> plan::does(p, replies, storage::ImageVolume::Deactivate)) by {
        plan::lemma_way_in(
            p,
            replies,
            |x: storage::ImageVolume|
                x == storage::ImageVolume::Delete || x == storage::ImageVolume::Done,
            plan::doing(storage::ImageVolume::Deactivate),
        );
    }
    assert(end == storage::ImageVolume::Failed
        ==> plan::gets(p, replies, storage::ImageVolume::EnsurePool, Reply::Error)
        || plan::gets(p, replies, storage::ImageVolume::CheckHealth, Reply::Error)
        || plan::gets(p, replies, storage::ImageVolume::Allocate, Reply::Error)
        || plan::does(p, replies, storage::ImageVolume::DeleteFailed)) by {
        plan::lemma_way_in(
            p,
            replies,
            |x: storage::ImageVolume| x == storage::ImageVolume::Failed,
            plan::either(plan::getting(storage::ImageVolume::EnsurePool, Reply::Error), plan::either(plan::getting(storage::ImageVolume::CheckHealth, Reply::Error), plan::either(plan::getting(storage::ImageVolume::Allocate, Reply::Error), plan::doing(storage::ImageVolume::DeleteFailed)))),
        );
        plan::lemma_either(
            p,
            replies,
            plan::getting(storage::ImageVolume::EnsurePool, Reply::Error),
            plan::either(plan::getting(storage::ImageVolume::CheckHealth, Reply::Error), plan::either(plan::getting(storage::ImageVolume::Allocate, Reply::Error), plan::doing(storage::ImageVolume::DeleteFailed))),
        );
        plan::lemma_either(
            p,
            replies,
            plan::getting(storage::ImageVolume::CheckHealth, Reply::Error),
            plan::either(plan::getting(storage::ImageVolume::Allocate, Reply::Error), plan::doing(storage::ImageVolume::DeleteFailed)),
        );
        plan::lemma_either(
            p,
            replies,
            plan::getting(storage::ImageVolume::Allocate, Reply::Error),
            plan::doing(storage::ImageVolume::DeleteFailed),
        );
    }
}

/// The disk of a VM is a snapshot of the volume of an image: it is activated only
/// after the snapshot was taken, in a healthy pool, of a volume that the image has;
/// and the clone is done only where all of that was managed.
pub proof fn law_clone_order(replies: Seq<Reply>)
    ensures
        ({
            let p = storage::CloneVolume::EnsurePool;
            let end = plan::reached(p, replies);
            &&& !storage::CloneVolume::Done.doomed()
            &&& storage::CloneVolume::Failed.doomed()
            &&& plan::does(p, replies, storage::CloneVolume::CheckHealth)
                ==> plan::manages(p, replies, storage::CloneVolume::EnsurePool)
            &&& plan::does(p, replies, storage::CloneVolume::RequireId)
                ==> plan::manages(p, replies, storage::CloneVolume::CheckHealth)
            &&& plan::does(p, replies, storage::CloneVolume::Snapshot)
                ==> plan::manages(p, replies, storage::CloneVolume::RequireId)
            &&& plan::does(p, replies, storage::CloneVolume::Activate)
                ==> plan::manages(p, replies, storage::CloneVolume::Snapshot)
            &&& plan::does(p, replies, storage::CloneVolume::Delete)
                ==> plan::gets(p, replies, storage::CloneVolume::Activate, Reply::Error)
            &&& end == storage::CloneVolume::Done
                ==> plan::manages(p, replies, storage::CloneVolume::Activate)
            &&& end == storage::CloneVolume::Done
                ==> plan::manages(p, replies, storage::CloneVolume::EnsurePool)
            &&& end == storage::CloneVolume::Done
                ==> plan::manages(p, replies, storage::CloneVolume::CheckHealth)
            &&& end == storage::CloneVolume::Done
                ==> plan::manages(p, replies, storage::CloneVolume::RequireId)
            &&& end == storage::CloneVolume::Done
                ==> plan::manages(p, replies, storage::CloneVolume::Snapshot)
            &&& end == storage::CloneVolume::Failed
                ==> plan::gets(p, replies, storage::CloneVolume::EnsurePool, Reply::Error)
                || plan::gets(p, replies, storage::CloneVolume::CheckHealth, Reply::Error)
                || plan::gets(p, replies, storage::CloneVolume::RequireId, Reply::Error)
                || plan::gets(p, replies, storage::CloneVolume::Snapshot, Reply::Error)
                || plan::does(p, replies, storage::CloneVolume::Delete)
        }),
{
    let p = storage::CloneVolume::EnsurePool;
    let end = plan::reached(p, replies);
    assert(plan::does(p, replies, storage::CloneVolume::CheckHealth)
        ==> plan::manages(p, replies, storage::CloneVolume::EnsurePool)) by {
        plan::lemma_way_in(
            p,
            replies,
            |x: storage::CloneVolume|
                x != storage::CloneVolume::EnsurePool && x != storage::CloneVolume::Failed,
            plan::managing(storage::CloneVolume::EnsurePool),
        );
    }
    assert(plan::does(p, replies, storage::CloneVolume::RequireId)
        ==> plan::manages(p, replies, storage::CloneVolume::CheckHealth)) by {
        plan::lemma_way_in(
            p,
            replies,
            |x: storage::CloneVolume|
                x != storage::CloneVolume::EnsurePool && x != storage::CloneVolume::CheckHealth
                    && x != storage::CloneVolume::Failed,
            plan::managing(storage::CloneVolume::CheckHealth),
        );
    }
    assert(plan::does(p, replies, storage::CloneVolume::Snapshot)
        ==> plan::manages(p, replies, storage::CloneVolume::RequireId)) by {
        plan::lemma_way_in(
            p,
            replies,
            |x: storage::CloneVolume|
                x == storage::CloneVolume::Snapshot || x == storage::CloneVolume::Activate
                    || x == storage::CloneVolume::Delete || x == storage::CloneVolume::Done,
            plan::managing(storage::CloneVolume::RequireId),
        );
    }
    assert(plan::does(p, replies, storage::CloneVolume::Activate)
        ==> plan::manages(p, replies, storage::CloneVolume::Snapshot)) by {
        plan::lemma_way_in(
            p,
            replies,
            |x: storage::CloneVolume|
                x == storage::CloneVolume::Activate || x == storage::CloneVolume::Delete
                    || x == storage::CloneVolume::Done,
            plan::managing(storage::CloneVolume::Snapshot),
        );
    }
    assert(plan::does(p, replies, storage::CloneVolume::Delete)
        ==> plan::gets(p, replies, storage::CloneVolume::Activate, Reply::Error)) by {
        plan::lemma_way_in(
            p,
            replies,
            |x: storage::CloneVolume| x == storage::CloneVolume::Delete,
            plan::getting(storage::CloneVolume::Activate, Reply::Error),
        );
    }
    assert(end == storage::CloneVolume::Done
        ==> plan::manages(p, replies, storage::CloneVolume::Activate)) by {
        plan::lemma_way_in(
            p,
            replies,
            |x: storage::CloneVolume| x == storage::CloneVolume::Done,
            plan::managing(storage::CloneVolume::Activate),
        );
    }
    assert(end == storage::CloneVolume::Done
        ==> plan::manages(p, replies, storage::CloneVolume::EnsurePool)) by {
        plan::lemma_way_in(
            p,
            replies,
            |x: storage::CloneVolume|
                x != storage::CloneVolume::EnsurePool && x != storage::CloneVolume::Failed,
            plan::managing(storage::CloneVolume::EnsurePool),
        );
    }
    assert(end == storage::CloneVolume::Done
        ==> plan::manages(p, replies, storage::CloneVolume::CheckHealth)) by {
        plan::lemma_way_in(
            p,
            replies,
            |x: storage::CloneVolume|
                x != storage::CloneVolume::EnsurePool && x != storage::CloneVolume::CheckHealth
                    && x != storage::CloneVolume::Failed,
            plan::managing(storage::CloneVolume::CheckHealth),
        );
    }
    assert(end == storage::CloneVolume::Done
        ==> plan::manages(p, replies, storage::CloneVolume::RequireId)) by {
        plan::lemma_way_in(
            p,
            replies,
            |x: storage::CloneVolume|
                x == storage::CloneVolume::Snapshot || x == storage::CloneVolume::Activate
                    || x == storage::CloneVolume::Delete || x == storage::CloneVolume::Done,
            plan::managing(storage::CloneVolume::RequireId),
        );
    }
    assert(end == storage::CloneVolume::Done
        ==> plan::manages(p, replies, storage::CloneVolume::Snapshot)) by {
        plan::lemma_way_in(
            p,
            replies,
            |x: storage::CloneVolume|
                x == storage::CloneVolume::Activate || x == storage::CloneVolume::Delete
                    || x == storage::CloneVolume::Done,
            plan::managing(storage::CloneVolume::Snapshot),
        );
    }
    assert(end == storage::CloneVolume::Failed
        ==> plan::gets(p, replies, storage::CloneVolume::EnsurePool, Reply::Error)
        || plan::gets(p, replies, storage::CloneVolume::CheckHealth, Reply::Error)
        || plan::gets(p, replies, storage::CloneVolume::RequireId, Reply::Error)
        || plan::gets(p, replies, storage::CloneVolume::Snapshot, Reply::Error)
        || plan::does(p, replies, storage::CloneVolume::Delete)) by {
        plan::lemma_way_in(
            p,
            replies,
            |x: storage::CloneVolume| x == storage::CloneVolume::Failed,
            plan::either(plan::getting(storage::CloneVolume::EnsurePool, Reply::Error), plan::either(plan::getting(storage::CloneVolume::CheckHealth, Reply::Error), plan::either(plan::getting(storage::CloneVolume::RequireId, Reply::Error), plan::either(plan::getting(storage::CloneVolume::Snapshot, Reply::Error), plan::doing(storage::CloneVolume::Delete))))),
        );
        plan::lemma_either(
            p,
            replies,
            plan::getting(storage::CloneVolume::EnsurePool, Reply::Error),
            plan::either(plan::getting(storage::CloneVolume::CheckHealth, Reply::Error), plan::either(plan::getting(storage::CloneVolume::RequireId, Reply::Error), plan::either(plan::getting(storage::CloneVolume::Snapshot, Reply::Error), plan::doing(storage::CloneVolume::Delete)))),
        );
        plan::lemma_either(
            p,
            replies,
            plan::getting(storage::CloneVolume::CheckHealth, Reply::Error),
            plan::either(plan::getting(storage::CloneVolume::RequireId, Reply::Error), plan::either(plan::getting(storage::CloneVolume::Snapshot, Reply::Error), plan::doing(storage::CloneVolume::Delete))),
        );
        plan::lemma_either(
            p,
            replies,
            plan::getting(storage::CloneVolume::RequireId, Reply::Error),
            plan::either(plan::getting(storage::CloneVolume::Snapshot, Reply::Error), plan::doing(storage::CloneVolume::Delete)),
        );
        plan::lemma_either(
            p,
            replies,
            plan::getting(storage::CloneVolume::Snapshot, Reply::Error),
            plan::doing(storage::CloneVolume::Delete),
        );
    }
}

/// A volume gets its new size before its file system grows, and the file system is
/// checked before that. A phase is done only after the ones it needs, and the work is
/// done only where all of them were.
pub proof fn law_resize_order(replies: Seq<Reply>)
    ensures
        ({
            let p = storage::ResizeVolume::EnsurePool;
            let end = plan::reached(p, replies);
            &&& !storage::ResizeVolume::Done.doomed()
            &&& storage::ResizeVolume::Failed.doomed()
            &&& plan::does(p, replies, storage::ResizeVolume::CheckHealth)
                ==> plan::manages(p, replies, storage::ResizeVolume::EnsurePool)
            &&& plan::does(p, replies, storage::ResizeVolume::RequireId)
                ==> plan::manages(p, replies, storage::ResizeVolume::CheckHealth)
            &&& plan::does(p, replies, storage::ResizeVolume::AskDevice)
                ==> plan::manages(p, replies, storage::ResizeVolume::RequireId)
            &&& plan::does(p, replies, storage::ResizeVolume::Activate)
                ==> plan::gets(p, replies, storage::ResizeVolume::AskDevice, Reply::No)
            &&& plan::does(p, replies, storage::ResizeVolume::Suspend)
                ==> plan::gets(p, replies, storage::ResizeVolume::AskDevice, Reply::Yes)
                || plan::manages(p, replies, storage::ResizeVolume::Activate)
            &&& plan::does(p, replies, storage::ResizeVolume::Load)
                ==> plan::manages(p, replies, storage::ResizeVolume::Suspend)
            &&& plan::does(p, replies, storage::ResizeVolume::CheckLoad)
                ==> plan::manages(p, replies, storage::ResizeVolume::Load)
            &&& plan::does(p, replies, storage::ResizeVolume::Recover)
                ==> plan::gets(p, replies, storage::ResizeVolume::CheckLoad, Reply::Error)
            &&& plan::does(p, replies, storage::ResizeVolume::Resume)
                ==> plan::manages(p, replies, storage::ResizeVolume::CheckLoad)
            &&& plan::does(p, replies, storage::ResizeVolume::WaitDevice)
                ==> plan::manages(p, replies, storage::ResizeVolume::Resume)
            &&& plan::does(p, replies, storage::ResizeVolume::CheckFs)
                ==> plan::manages(p, replies, storage::ResizeVolume::WaitDevice)
            &&& plan::does(p, replies, storage::ResizeVolume::GrowFs)
                ==> plan::manages(p, replies, storage::ResizeVolume::CheckFs)
            &&& end == storage::ResizeVolume::Done
                ==> plan::manages(p, replies, storage::ResizeVolume::GrowFs)
            &&& end == storage::ResizeVolume::Done
                ==> plan::manages(p, replies, storage::ResizeVolume::EnsurePool)
            &&& end == storage::ResizeVolume::Done
                ==> plan::manages(p, replies, storage::ResizeVolume::CheckHealth)
            &&& end == storage::ResizeVolume::Done
                ==> plan::manages(p, replies, storage::ResizeVolume::RequireId)
            &&& end == storage::ResizeVolume::Done
                ==> plan::manages(p, replies, storage::ResizeVolume::AskDevice)
            &&& end == storage::ResizeVolume::Done
                ==> plan::manages(p, replies, storage::ResizeVolume::Suspend)
            &&& end == storage::ResizeVolume::Done
                ==> plan::manages(p, replies, storage::ResizeVolume::Load)
            &&& end == storage::ResizeVolume::Done
                ==> plan::manages(p, replies, storage::ResizeVolume::CheckLoad)
            &&& end == storage::ResizeVolume::Done
                ==> plan::manages(p, replies, storage::ResizeVolume::Resume)
            &&& end == storage::ResizeVolume::Done
                ==> plan::manages(p, replies, storage::ResizeVolume::WaitDevice)
            &&& end == storage::ResizeVolume::Done
                ==> plan::manages(p, replies, storage::ResizeVolume::CheckFs)
            &&& end == storage::ResizeVolume::Failed
                ==> plan::gets(p, replies, storage::ResizeVolume::EnsurePool, Reply::Error)
                || plan::gets(p, replies, storage::ResizeVolume::CheckHealth, Reply::Error)
                || plan::gets(p, replies, storage::ResizeVolume::RequireId, Reply::Error)
                || plan::gets(p, replies, storage::ResizeVolume::AskDevice, Reply::Error)
                || plan::gets(p, replies, storage::ResizeVolume::Activate, Reply::Error)
                || plan::gets(p, replies, storage::ResizeVolume::Suspend, Reply::Error)
                || plan::gets(p, replies, storage::ResizeVolume::Load, Reply::Error)
                || plan::does(p, replies, storage::ResizeVolume::Recover)
                || plan::gets(p, replies, storage::ResizeVolume::Resume, Reply::Error)
                || plan::gets(p, replies, storage::ResizeVolume::WaitDevice, Reply::Error)
                || plan::gets(p, replies, storage::ResizeVolume::CheckFs, Reply::Error)
                || plan::gets(p, replies, storage::ResizeVolume::GrowFs, Reply::Error)
        }),
{
    let p = storage::ResizeVolume::EnsurePool;
    let end = plan::reached(p, replies);
    assert(plan::does(p, replies, storage::ResizeVolume::CheckHealth)
        ==> plan::manages(p, replies, storage::ResizeVolume::EnsurePool)) by {
        plan::lemma_way_in(
            p,
            replies,
            |x: storage::ResizeVolume|
                x != storage::ResizeVolume::EnsurePool && x != storage::ResizeVolume::Failed,
            plan::managing(storage::ResizeVolume::EnsurePool),
        );
    }
    assert(plan::does(p, replies, storage::ResizeVolume::RequireId)
        ==> plan::manages(p, replies, storage::ResizeVolume::CheckHealth)) by {
        plan::lemma_way_in(
            p,
            replies,
            |x: storage::ResizeVolume|
                x != storage::ResizeVolume::EnsurePool
                    && x != storage::ResizeVolume::CheckHealth
                    && x != storage::ResizeVolume::Failed,
            plan::managing(storage::ResizeVolume::CheckHealth),
        );
    }
    assert(plan::does(p, replies, storage::ResizeVolume::AskDevice)
        ==> plan::manages(p, replies, storage::ResizeVolume::RequireId)) by {
        plan::lemma_way_in(
            p,
            replies,
            |x: storage::ResizeVolume|
                x != storage::ResizeVolume::EnsurePool
                    && x != storage::ResizeVolume::CheckHealth
                    && x != storage::ResizeVolume::RequireId
                    && x != storage::ResizeVolume::Failed,
            plan::managing(storage::ResizeVolume::RequireId),
        );
    }
    assert(plan::does(p, replies, storage::ResizeVolume::Activate)
        ==> plan::gets(p, replies, storage::ResizeVolume::AskDevice, Reply::No)) by {
        plan::lemma_way_in(
            p,
            replies,
            |x: storage::ResizeVolume| x == storage::ResizeVolume::Activate,
            plan::getting(storage::ResizeVolume::AskDevice, Reply::No),
        );
    }
    assert(plan::does(p, replies, storage::ResizeVolume::Suspend)
        ==> plan::gets(p, replies, storage::ResizeVolume::AskDevice, Reply::Yes)
        || plan::manages(p, replies, storage::ResizeVolume::Activate)) by {
        plan::lemma_way_in(
            p,
            replies,
            |x: storage::ResizeVolume|
                x != storage::ResizeVolume::EnsurePool
                    && x != storage::ResizeVolume::CheckHealth
                    && x != storage::ResizeVolume::RequireId
                    && x != storage::ResizeVolume::AskDevice
                    && x != storage::ResizeVolume::Activate
                    && x != storage::ResizeVolume::Failed,
            plan::either(plan::getting(storage::ResizeVolume::AskDevice, Reply::Yes), plan::managing(storage::ResizeVolume::Activate)),
        );
        plan::lemma_either(
            p,
            replies,
            plan::getting(storage::ResizeVolume::AskDevice, Reply::Yes),
            plan::managing(storage::ResizeVolume::Activate),
        );
    }
    assert(plan::does(p, replies, storage::ResizeVolume::Load)
        ==> plan::manages(p, replies, storage::ResizeVolume::Suspend)) by {
        plan::lemma_way_in(
            p,
            replies,
            |x: storage::ResizeVolume|
                x != storage::ResizeVolume::EnsurePool
                    && x != storage::ResizeVolume::CheckHealth
                    && x != storage::ResizeVolume::RequireId
                    && x != storage::ResizeVolume::AskDevice
                    && x != storage::ResizeVolume::Activate
                    && x != storage::ResizeVolume::Suspend && x != storage::ResizeVolume::Failed,
            plan::managing(storage::ResizeVolume::Suspend),
        );
    }
    assert(plan::does(p, replies, storage::ResizeVolume::CheckLoad)
        ==> plan::manages(p, replies, storage::ResizeVolume::Load)) by {
        plan::lemma_way_in(
            p,
            replies,
            |x: storage::ResizeVolume|
                x == storage::ResizeVolume::CheckLoad || x == storage::ResizeVolume::Recover
                    || x == storage::ResizeVolume::Resume
                    || x == storage::ResizeVolume::WaitDevice
                    || x == storage::ResizeVolume::CheckFs || x == storage::ResizeVolume::GrowFs
                    || x == storage::ResizeVolume::Done,
            plan::managing(storage::ResizeVolume::Load),
        );
    }
    assert(plan::does(p, replies, storage::ResizeVolume::Recover)
        ==> plan::gets(p, replies, storage::ResizeVolume::CheckLoad, Reply::Error)) by {
        plan::lemma_way_in(
            p,
            replies,
            |x: storage::ResizeVolume| x == storage::ResizeVolume::Recover,
            plan::getting(storage::ResizeVolume::CheckLoad, Reply::Error),
        );
    }
    assert(plan::does(p, replies, storage::ResizeVolume::Resume)
        ==> plan::manages(p, replies, storage::ResizeVolume::CheckLoad)) by {
        plan::lemma_way_in(
            p,
            replies,
            |x: storage::ResizeVolume|
                x == storage::ResizeVolume::Resume || x == storage::ResizeVolume::WaitDevice
                    || x == storage::ResizeVolume::CheckFs || x == storage::ResizeVolume::GrowFs
                    || x == storage::ResizeVolume::Done,
            plan::managing(storage::ResizeVolume::CheckLoad),
        );
    }
    assert(plan::does(p, replies, storage::ResizeVolume::WaitDevice)
        ==> plan::manages(p, replies, storage::ResizeVolume::Resume)) by {
        plan::lemma_way_in(
            p,
            replies,
            |x: storage::ResizeVolume|
                x == storage::ResizeVolume::WaitDevice || x == storage::ResizeVolume::CheckFs
                    || x == storage::ResizeVolume::GrowFs || x == storage::ResizeVolume::Done,
            plan::managing(storage::ResizeVolume::Resume),
        );
    }
    assert(plan::does(p, replies, storage::ResizeVolume::CheckFs)
        ==> plan::manages(p, replies, storage::ResizeVolume::WaitDevice)) by {
        plan::lemma_way_in(
            p,
            replies,
            |x: storage::ResizeVolume|
                x == storage::ResizeVolume::CheckFs || x == storage::ResizeVolume::GrowFs
                    || x == storage::ResizeVolume::Done,
            plan::managing(storage::ResizeVolume::WaitDevice),
        );
    }
    assert(plan::does(p, replies, storage::ResizeVolume::GrowFs)
        ==> plan::manages(p, replies, storage::ResizeVolume::CheckFs)) by {
        plan::lemma_way_in(
            p,
            replies,
            |x: storage::ResizeVolume|
                x == storage::ResizeVolume::GrowFs || x == storage::ResizeVolume::Done,
            plan::managing(storage::ResizeVolume::CheckFs),
        );
    }
    assert(end == storage::ResizeVolume::Done
        ==> plan::manages(p, replies, storage::ResizeVolume::GrowFs)) by {
        plan::lemma_way_in(
            p,
            replies,
            |x: storage::ResizeVolume| x == storage::ResizeVolume::Done,
            plan::managing(storage::ResizeVolume::GrowFs),
        );
    }
    assert(end == storage::ResizeVolume::Done
        ==> plan::manages(p, replies, storage::ResizeVolume::EnsurePool)) by {
        plan::lemma_way_in(
            p,
            replies,
            |x: storage::ResizeVolume|
                x != storage::ResizeVolume::EnsurePool && x != storage::ResizeVolume::Failed,
            plan::managing(storage::ResizeVolume::EnsurePool),
        );
    }
    assert(end == storage::ResizeVolume::Done
        ==> plan::manages(p, replies, storage::ResizeVolume::CheckHealth)) by {
        plan::lemma_way_in(
            p,
            replies,
            |x: storage::ResizeVolume|
                x != storage::ResizeVolume::EnsurePool
                    && x != storage::ResizeVolume::CheckHealth
                    && x != storage::ResizeVolume::Failed,
            plan::managing(storage::ResizeVolume::CheckHealth),
        );
    }
    assert(end == storage::ResizeVolume::Done
        ==> plan::manages(p, replies, storage::ResizeVolume::RequireId)) by {
        plan::lemma_way_in(
            p,
            replies,
            |x: storage::ResizeVolume|
                x != storage::ResizeVolume::EnsurePool
                    && x != storage::ResizeVolume::CheckHealth
                    && x != storage::ResizeVolume::RequireId
                    && x != storage::ResizeVolume::Failed,
            plan::managing(storage::ResizeVolume::RequireId),
        );
    }
    assert(end == storage::ResizeVolume::Done
        ==> plan::manages(p, replies, storage::ResizeVolume::AskDevice)) by {
        plan::lemma_way_in(
            p,
            replies,
            |x: storage::ResizeVolume|
                x != storage::ResizeVolume::EnsurePool
                    && x != storage::ResizeVolume::CheckHealth
                    && x != storage::ResizeVolume::RequireId
                    && x != storage::ResizeVolume::AskDevice
                    && x != storage::ResizeVolume::Failed,
            plan::managing(storage::ResizeVolume::AskDevice),
        );
    }
    assert(end == storage::ResizeVolume::Done
        ==> plan::manages(p, replies, storage::ResizeVolume::Suspend)) by {
        plan::lemma_way_in(
            p,
            replies,
            |x: storage::ResizeVolume|
                x != storage::ResizeVolume::EnsurePool
                    && x != storage::ResizeVolume::CheckHealth
                    && x != storage::ResizeVolume::RequireId
                    && x != storage::ResizeVolume::AskDevice
                    && x != storage::ResizeVolume::Activate
                    && x != storage::ResizeVolume::Suspend && x != storage::ResizeVolume::Failed,
            plan::managing(storage::ResizeVolume::Suspend),
        );
    }
    assert(end == storage::ResizeVolume::Done ==> plan::manages(p, replies, storage::ResizeVolume::Load)) by {
        plan::lemma_way_in(
            p,
            replies,
            |x: storage::ResizeVolume|
                x == storage::ResizeVolume::CheckLoad || x == storage::ResizeVolume::Recover
                    || x == storage::ResizeVolume::Resume
                    || x == storage::ResizeVolume::WaitDevice
                    || x == storage::ResizeVolume::CheckFs || x == storage::ResizeVolume::GrowFs
                    || x == storage::ResizeVolume::Done,
            plan::managing(storage::ResizeVolume::Load),
        );
    }
    assert(end == storage::ResizeVolume::Done
        ==> plan::manages(p, replies, storage::ResizeVolume::CheckLoad)) by {
        plan::lemma_way_in(
            p,
            replies,
            |x: storage::ResizeVolume|
                x == storage::ResizeVolume::Resume || x == storage::ResizeVolume::WaitDevice
                    || x == storage::ResizeVolume::CheckFs || x == storage::ResizeVolume::GrowFs
                    || x == storage::ResizeVolume::Done,
            plan::managing(storage::ResizeVolume::CheckLoad),
        );
    }
    assert(end == storage::ResizeVolume::Done
        ==> plan::manages(p, replies, storage::ResizeVolume::Resume)) by {
        plan::lemma_way_in(
            p,
            replies,
            |x: storage::ResizeVolume|
                x == storage::ResizeVolume::WaitDevice || x == storage::ResizeVolume::CheckFs
                    || x == storage::ResizeVolume::GrowFs || x == storage::ResizeVolume::Done,
            plan::managing(storage::ResizeVolume::Resume),
        );
    }
    assert(end == storage::ResizeVolume::Done
        ==> plan::manages(p, replies, storage::ResizeVolume::WaitDevice)) by {
        plan::lemma_way_in(
            p,
            replies,
            |x: storage::ResizeVolume|
                x == storage::ResizeVolume::CheckFs || x == storage::ResizeVolume::GrowFs
                    || x == storage::ResizeVolume::Done,
            plan::managing(storage::ResizeVolume::WaitDevice),
        );
    }
    assert(end == storage::ResizeVolume::Done
        ==> plan::manages(p, replies, storage::ResizeVolume::CheckFs)) by {
        plan::lemma_way_in(
            p,
            replies,
            |x: storage::ResizeVolume|
                x == storage::ResizeVolume::GrowFs || x == storage::ResizeVolume::Done,
            plan::managing(storage::ResizeVolume::CheckFs),
        );
    }
    assert(end == storage::ResizeVolume::Failed
        ==> plan::gets(p, replies, storage::ResizeVolume::EnsurePool, Reply::Error)
        || plan::gets(p, replies, storage::ResizeVolume::CheckHealth, Reply::Error)
        || plan::gets(p, replies, storage::ResizeVolume::RequireId, Reply::Error)
        || plan::gets(p, replies, storage::ResizeVolume::AskDevice, Reply::Error)
        || plan::gets(p, replies, storage::ResizeVolume::Activate, Reply::Error)
        || plan::gets(p, replies, storage::ResizeVolume::Suspend, Reply::Error)
        || plan::gets(p, replies, storage::ResizeVolume::Load, Reply::Error)
        || plan::does(p, replies, storage::ResizeVolume::Recover)
        || plan::gets(p, replies, storage::ResizeVolume::Resume, Reply::Error)
        || plan::gets(p, replies, storage::ResizeVolume::WaitDevice, Reply::Error)
        || plan::gets(p, replies, storage::ResizeVolume::CheckFs, Reply::Error)
        || plan::gets(p, replies, storage::ResizeVolume::GrowFs, Reply::Error)) by {
        plan::lemma_way_in(
            p,
            replies,
            |x: storage::ResizeVolume| x == storage::ResizeVolume::Failed,
            plan::either(plan::getting(storage::ResizeVolume::EnsurePool, Reply::Error), plan::either(plan::getting(storage::ResizeVolume::CheckHealth, Reply::Error), plan::either(plan::getting(storage::ResizeVolume::RequireId, Reply::Error), plan::either(plan::getting(storage::ResizeVolume::AskDevice, Reply::Error), plan::either(plan::getting(storage::ResizeVolume::Activate, Reply::Error), plan::either(plan::getting(storage::ResizeVolume::Suspend, Reply::Error), plan::either(plan::getting(storage::ResizeVolume::Load, Reply::Error), plan::either(plan::doing(storage::ResizeVolume::Recover), plan::either(plan::getting(storage::ResizeVolume::Resume, Reply::Error), plan::either(plan::getting(storage::ResizeVolume::WaitDevice, Reply::Error), plan::either(plan::getting(storage::ResizeVolume::CheckFs, Reply::Error), plan::getting(storage::ResizeVolume::GrowFs, Reply::Error)))))))))))),
        );
        plan::lemma_either(
            p,
            replies,
            plan::getting(storage::ResizeVolume::EnsurePool, Reply::Error),
            plan::either(plan::getting(storage::ResizeVolume::CheckHealth, Reply::Error), plan::either(plan::getting(storage::ResizeVolume::RequireId, Reply::Error), plan::either(plan::getting(storage::ResizeVolume::AskDevice, Reply::Error), plan::either(plan::getting(storage::ResizeVolume::Activate, Reply::Error), plan::either(plan::getting(storage::ResizeVolume::Suspend, Reply::Error), plan::either(plan::getting(storage::ResizeVolume::Load, Reply::Error), plan::either(plan::doing(storage::ResizeVolume::Recover), plan::either(plan::getting(storage::ResizeVolume::Resume, Reply::Error), plan::either(plan::getting(storage::ResizeVolume::WaitDevice, Reply::Error), plan::either(plan::getting(storage::ResizeVolume::CheckFs, Reply::Error), plan::getting(storage::ResizeVolume::GrowFs, Reply::Error))))))))))),
        );
        plan::lemma_either(
            p,
            replies,
            plan::getting(storage::ResizeVolume::CheckHealth, Reply::Error),
            plan::either(plan::getting(storage::ResizeVolume::RequireId, Reply::Error), plan::either(plan::getting(storage::ResizeVolume::AskDevice, Reply::Error), plan::either(plan::getting(storage::ResizeVolume::Activate, Reply::Error), plan::either(plan::getting(storage::ResizeVolume::Suspend, Reply::Error), plan::either(plan::getting(storage::ResizeVolume::Load, Reply::Error), plan::either(plan::doing(storage::ResizeVolume::Recover), plan::either(plan::getting(storage::ResizeVolume::Resume, Reply::Error), plan::either(plan::getting(storage::ResizeVolume::WaitDevice, Reply::Error), plan::either(plan::getting(storage::ResizeVolume::CheckFs, Reply::Error), plan::getting(storage::ResizeVolume::GrowFs, Reply::Error)))))))))),
        );
        plan::lemma_either(
            p,
            replies,
            plan::getting(storage::ResizeVolume::RequireId, Reply::Error),
            plan::either(plan::getting(storage::ResizeVolume::AskDevice, Reply::Error), plan::either(plan::getting(storage::ResizeVolume::Activate, Reply::Error), plan::either(plan::getting(storage::ResizeVolume::Suspend, Reply::Error), plan::either(plan::getting(storage::ResizeVolume::Load, Reply::Error), plan::either(plan::doing(storage::ResizeVolume::Recover), plan::either(plan::getting(storage::ResizeVolume::Resume, Reply::Error), plan::either(plan::getting(storage::ResizeVolume::WaitDevice, Reply::Error), plan::either(plan::getting(storage::ResizeVolume::CheckFs, Reply::Error), plan::getting(storage::ResizeVolume::GrowFs, Reply::Error))))))))),
        );
        plan::lemma_either(
            p,
            replies,
            plan::getting(storage::ResizeVolume::AskDevice, Reply::Error),
            plan::either(plan::getting(storage::ResizeVolume::Activate, Reply::Error), plan::either(plan::getting(storage::ResizeVolume::Suspend, Reply::Error), plan::either(plan::getting(storage::ResizeVolume::Load, Reply::Error), plan::either(plan::doing(storage::ResizeVolume::Recover), plan::either(plan::getting(storage::ResizeVolume::Resume, Reply::Error), plan::either(plan::getting(storage::ResizeVolume::WaitDevice, Reply::Error), plan::either(plan::getting(storage::ResizeVolume::CheckFs, Reply::Error), plan::getting(storage::ResizeVolume::GrowFs, Reply::Error)))))))),
        );
        plan::lemma_either(
            p,
            replies,
            plan::getting(storage::ResizeVolume::Activate, Reply::Error),
            plan::either(plan::getting(storage::ResizeVolume::Suspend, Reply::Error), plan::either(plan::getting(storage::ResizeVolume::Load, Reply::Error), plan::either(plan::doing(storage::ResizeVolume::Recover), plan::either(plan::getting(storage::ResizeVolume::Resume, Reply::Error), plan::either(plan::getting(storage::ResizeVolume::WaitDevice, Reply::Error), plan::either(plan::getting(storage::ResizeVolume::CheckFs, Reply::Error), plan::getting(storage::ResizeVolume::GrowFs, Reply::Error))))))),
        );
        plan::lemma_either(
            p,
            replies,
            plan::getting(storage::ResizeVolume::Suspend, Reply::Error),
            plan::either(plan::getting(storage::ResizeVolume::Load, Reply::Error), plan::either(plan::doing(storage::ResizeVolume::Recover), plan::either(plan::getting(storage::ResizeVolume::Resume, Reply::Error), plan::either(plan::getting(storage::ResizeVolume::WaitDevice, Reply::Error), plan::either(plan::getting(storage::ResizeVolume::CheckFs, Reply::Error), plan::getting(storage::ResizeVolume::GrowFs, Reply::Error)))))),
        );
        plan::lemma_either(
            p,
            replies,
            plan::getting(storage::ResizeVolume::Load, Reply::Error),
            plan::either(plan::doing(storage::ResizeVolume::Recover), plan::either(plan::getting(storage::ResizeVolume::Resume, Reply::Error), plan::either(plan::getting(storage::ResizeVolume::WaitDevice, Reply::Error), plan::either(plan::getting(storage::ResizeVolume::CheckFs, Reply::Error), plan::getting(storage::ResizeVolume::GrowFs, Reply::Error))))),
        );
        plan::lemma_either(
            p,
            replies,
            plan::doing(storage::ResizeVolume::Recover),
            plan::either(plan::getting(storage::ResizeVolume::Resume, Reply::Error), plan::either(plan::getting(storage::ResizeVolume::WaitDevice, Reply::Error), plan::either(plan::getting(storage::ResizeVolume::CheckFs, Reply::Error), plan::getting(storage::ResizeVolume::GrowFs, Reply::Error)))),
        );
        plan::lemma_either(
            p,
            replies,
            plan::getting(storage::ResizeVolume::Resume, Reply::Error),
            plan::either(plan::getting(storage::ResizeVolume::WaitDevice, Reply::Error), plan::either(plan::getting(storage::ResizeVolume::CheckFs, Reply::Error), plan::getting(storage::ResizeVolume::GrowFs, Reply::Error))),
        );
        plan::lemma_either(
            p,
            replies,
            plan::getting(storage::ResizeVolume::WaitDevice, Reply::Error),
            plan::either(plan::getting(storage::ResizeVolume::CheckFs, Reply::Error), plan::getting(storage::ResizeVolume::GrowFs, Reply::Error)),
        );
        plan::lemma_either(
            p,
            replies,
            plan::getting(storage::ResizeVolume::CheckFs, Reply::Error),
            plan::getting(storage::ResizeVolume::GrowFs, Reply::Error),
        );
    }
}

/// A volume is deactivated before it is deleted. A phase is done only after the ones
/// it needs, and the work is done only where all of them were.
pub proof fn law_destroy_order(replies: Seq<Reply>)
    ensures
        ({
            let p = storage::DestroyVolume::EnsurePool;
            let end = plan::reached(p, replies);
            &&& !storage::DestroyVolume::Done.doomed()
            &&& plan::does(p, replies, storage::DestroyVolume::AskDevice)
                ==> plan::does(p, replies, storage::DestroyVolume::EnsurePool)
            &&& plan::does(p, replies, storage::DestroyVolume::Deactivate)
                ==> plan::gets(p, replies, storage::DestroyVolume::AskDevice, Reply::Yes)
            &&& plan::does(p, replies, storage::DestroyVolume::AskId)
                ==> plan::gets(p, replies, storage::DestroyVolume::AskDevice, Reply::No)
                || plan::gets(p, replies, storage::DestroyVolume::AskDevice, Reply::Error)
                || plan::does(p, replies, storage::DestroyVolume::Deactivate)
            &&& plan::does(p, replies, storage::DestroyVolume::Delete)
                ==> plan::gets(p, replies, storage::DestroyVolume::AskId, Reply::Yes)
            &&& end == storage::DestroyVolume::Done
                ==> plan::gets(p, replies, storage::DestroyVolume::AskId, Reply::No)
                || plan::gets(p, replies, storage::DestroyVolume::AskId, Reply::Error)
                || plan::does(p, replies, storage::DestroyVolume::Delete)
            &&& end == storage::DestroyVolume::Done
                ==> plan::does(p, replies, storage::DestroyVolume::EnsurePool)
            &&& end == storage::DestroyVolume::Done
                ==> plan::does(p, replies, storage::DestroyVolume::AskDevice)
            &&& end == storage::DestroyVolume::Done
                ==> plan::does(p, replies, storage::DestroyVolume::AskId)
        }),
{
    let p = storage::DestroyVolume::EnsurePool;
    let end = plan::reached(p, replies);
    assert(plan::does(p, replies, storage::DestroyVolume::AskDevice)
        ==> plan::does(p, replies, storage::DestroyVolume::EnsurePool)) by {
        plan::lemma_way_in(
            p,
            replies,
            |x: storage::DestroyVolume| x != storage::DestroyVolume::EnsurePool,
            plan::doing(storage::DestroyVolume::EnsurePool),
        );
    }
    assert(plan::does(p, replies, storage::DestroyVolume::Deactivate)
        ==> plan::gets(p, replies, storage::DestroyVolume::AskDevice, Reply::Yes)) by {
        plan::lemma_way_in(
            p,
            replies,
            |x: storage::DestroyVolume| x == storage::DestroyVolume::Deactivate,
            plan::getting(storage::DestroyVolume::AskDevice, Reply::Yes),
        );
    }
    assert(plan::does(p, replies, storage::DestroyVolume::AskId)
        ==> plan::gets(p, replies, storage::DestroyVolume::AskDevice, Reply::No)
        || plan::gets(p, replies, storage::DestroyVolume::AskDevice, Reply::Error)
        || plan::does(p, replies, storage::DestroyVolume::Deactivate)) by {
        plan::lemma_way_in(
            p,
            replies,
            |x: storage::DestroyVolume|
                x == storage::DestroyVolume::AskId || x == storage::DestroyVolume::Delete
                    || x == storage::DestroyVolume::Done,
            plan::either(plan::getting(storage::DestroyVolume::AskDevice, Reply::No), plan::either(plan::getting(storage::DestroyVolume::AskDevice, Reply::Error), plan::doing(storage::DestroyVolume::Deactivate))),
        );
        plan::lemma_either(
            p,
            replies,
            plan::getting(storage::DestroyVolume::AskDevice, Reply::No),
            plan::either(plan::getting(storage::DestroyVolume::AskDevice, Reply::Error), plan::doing(storage::DestroyVolume::Deactivate)),
        );
        plan::lemma_either(
            p,
            replies,
            plan::getting(storage::DestroyVolume::AskDevice, Reply::Error),
            plan::doing(storage::DestroyVolume::Deactivate),
        );
    }
    assert(plan::does(p, replies, storage::DestroyVolume::Delete)
        ==> plan::gets(p, replies, storage::DestroyVolume::AskId, Reply::Yes)) by {
        plan::lemma_way_in(
            p,
            replies,
            |x: storage::DestroyVolume| x == storage::DestroyVolume::Delete,
            plan::getting(storage::DestroyVolume::AskId, Reply::Yes),
        );
    }
    assert(end == storage::DestroyVolume::Done
        ==> plan::gets(p, replies, storage::DestroyVolume::AskId, Reply::No)
        || plan::gets(p, replies, storage::DestroyVolume::AskId, Reply::Error)
        || plan::does(p, replies, storage::DestroyVolume::Delete)) by {
        plan::lemma_way_in(
            p,
            replies,
            |x: storage::DestroyVolume| x == storage::DestroyVolume::Done,
            plan::either(plan::getting(storage::DestroyVolume::AskId, Reply::No), plan::either(plan::getting(storage::DestroyVolume::AskId, Reply::Error), plan::doing(storage::DestroyVolume::Delete))),
        );
        plan::lemma_either(
            p,
            replies,
            plan::getting(storage::DestroyVolume::AskId, Reply::No),
            plan::either(plan::getting(storage::DestroyVolume::AskId, Reply::Error), plan::doing(storage::DestroyVolume::Delete)),
        );
        plan::lemma_either(
            p,
            replies,
            plan::getting(storage::DestroyVolume::AskId, Reply::Error),
            plan::doing(storage::DestroyVolume::Delete),
        );
    }
    assert(end == storage::DestroyVolume::Done
        ==> plan::does(p, replies, storage::DestroyVolume::EnsurePool)) by {
        plan::lemma_way_in(
            p,
            replies,
            |x: storage::DestroyVolume| x != storage::DestroyVolume::EnsurePool,
            plan::doing(storage::DestroyVolume::EnsurePool),
        );
    }
    assert(end == storage::DestroyVolume::Done
        ==> plan::does(p, replies, storage::DestroyVolume::AskDevice)) by {
        plan::lemma_way_in(
            p,
            replies,
            |x: storage::DestroyVolume|
                x != storage::DestroyVolume::EnsurePool
                    && x != storage::DestroyVolume::AskDevice,
            plan::doing(storage::DestroyVolume::AskDevice),
        );
    }
    assert(end == storage::DestroyVolume::Done ==> plan::does(p, replies, storage::DestroyVolume::AskId)) by {
        plan::lemma_way_in(
            p,
            replies,
            |x: storage::DestroyVolume|
                x == storage::DestroyVolume::Delete || x == storage::DestroyVolume::Done,
            plan::doing(storage::DestroyVolume::AskId),
        );
    }
}

/// A volume is activated in an active pool, where it is not active already. A phase
/// is done only after the ones it needs, and the work is done only where all of them
/// were.
pub proof fn law_open_order(replies: Seq<Reply>)
    ensures
        ({
            let p = storage::OpenVolume::EnsurePool;
            let end = plan::reached(p, replies);
            &&& !storage::OpenVolume::Done.doomed()
            &&& storage::OpenVolume::Failed.doomed()
            &&& plan::does(p, replies, storage::OpenVolume::RequireId)
                ==> plan::manages(p, replies, storage::OpenVolume::EnsurePool)
            &&& plan::does(p, replies, storage::OpenVolume::AskDevice)
                ==> plan::manages(p, replies, storage::OpenVolume::RequireId)
            &&& plan::does(p, replies, storage::OpenVolume::Activate)
                ==> plan::gets(p, replies, storage::OpenVolume::AskDevice, Reply::No)
            &&& end == storage::OpenVolume::Done
                ==> plan::gets(p, replies, storage::OpenVolume::AskDevice, Reply::Yes)
                || plan::manages(p, replies, storage::OpenVolume::Activate)
            &&& end == storage::OpenVolume::Done
                ==> plan::manages(p, replies, storage::OpenVolume::EnsurePool)
            &&& end == storage::OpenVolume::Done
                ==> plan::manages(p, replies, storage::OpenVolume::RequireId)
            &&& end == storage::OpenVolume::Done
                ==> plan::manages(p, replies, storage::OpenVolume::AskDevice)
        }),
{
    let p = storage::OpenVolume::EnsurePool;
    let end = plan::reached(p, replies);
    assert(plan::does(p, replies, storage::OpenVolume::RequireId)
        ==> plan::manages(p, replies, storage::OpenVolume::EnsurePool)) by {
        plan::lemma_way_in(
            p,
            replies,
            |x: storage::OpenVolume|
                x != storage::OpenVolume::EnsurePool && x != storage::OpenVolume::Failed,
            plan::managing(storage::OpenVolume::EnsurePool),
        );
    }
    assert(plan::does(p, replies, storage::OpenVolume::AskDevice)
        ==> plan::manages(p, replies, storage::OpenVolume::RequireId)) by {
        plan::lemma_way_in(
            p,
            replies,
            |x: storage::OpenVolume|
                x == storage::OpenVolume::AskDevice || x == storage::OpenVolume::Activate
                    || x == storage::OpenVolume::Done,
            plan::managing(storage::OpenVolume::RequireId),
        );
    }
    assert(plan::does(p, replies, storage::OpenVolume::Activate)
        ==> plan::gets(p, replies, storage::OpenVolume::AskDevice, Reply::No)) by {
        plan::lemma_way_in(
            p,
            replies,
            |x: storage::OpenVolume| x == storage::OpenVolume::Activate,
            plan::getting(storage::OpenVolume::AskDevice, Reply::No),
        );
    }
    assert(end == storage::OpenVolume::Done
        ==> plan::gets(p, replies, storage::OpenVolume::AskDevice, Reply::Yes)
        || plan::manages(p, replies, storage::OpenVolume::Activate)) by {
        plan::lemma_way_in(
            p,
            replies,
            |x: storage::OpenVolume| x == storage::OpenVolume::Done,
            plan::either(plan::getting(storage::OpenVolume::AskDevice, Reply::Yes), plan::managing(storage::OpenVolume::Activate)),
        );
        plan::lemma_either(
            p,
            replies,
            plan::getting(storage::OpenVolume::AskDevice, Reply::Yes),
            plan::managing(storage::OpenVolume::Activate),
        );
    }
    assert(end == storage::OpenVolume::Done
        ==> plan::manages(p, replies, storage::OpenVolume::EnsurePool)) by {
        plan::lemma_way_in(
            p,
            replies,
            |x: storage::OpenVolume|
                x != storage::OpenVolume::EnsurePool && x != storage::OpenVolume::Failed,
            plan::managing(storage::OpenVolume::EnsurePool),
        );
    }
    assert(end == storage::OpenVolume::Done ==> plan::manages(p, replies, storage::OpenVolume::RequireId)) by {
        plan::lemma_way_in(
            p,
            replies,
            |x: storage::OpenVolume|
                x == storage::OpenVolume::AskDevice || x == storage::OpenVolume::Activate
                    || x == storage::OpenVolume::Done,
            plan::managing(storage::OpenVolume::RequireId),
        );
    }
    assert(end == storage::OpenVolume::Done ==> plan::manages(p, replies, storage::OpenVolume::AskDevice)) by {
        plan::lemma_way_in(
            p,
            replies,
            |x: storage::OpenVolume|
                x == storage::OpenVolume::Activate || x == storage::OpenVolume::Done,
            plan::managing(storage::OpenVolume::AskDevice),
        );
    }
}

/// Volumes go before their pool, the pool before its loop devices, and these before
/// the files. A phase is done only after the ones it needs, and the work is done only
/// where all of them were.
pub proof fn law_teardown_order(replies: Seq<Reply>)
    ensures
        ({
            let p = storage::Teardown::DropImages;
            let end = plan::reached(p, replies);
            &&& !storage::Teardown::Done.doomed()
            &&& storage::Teardown::Failed.doomed()
            &&& plan::does(p, replies, storage::Teardown::DropDisks)
                ==> plan::manages(p, replies, storage::Teardown::DropImages)
            &&& plan::does(p, replies, storage::Teardown::AskPool)
                ==> plan::manages(p, replies, storage::Teardown::DropDisks)
            &&& plan::does(p, replies, storage::Teardown::RemovePool)
                ==> plan::gets(p, replies, storage::Teardown::AskPool, Reply::Yes)
            &&& plan::does(p, replies, storage::Teardown::FindMetadata)
                ==> plan::gets(p, replies, storage::Teardown::AskPool, Reply::No)
                || plan::manages(p, replies, storage::Teardown::RemovePool)
            &&& plan::does(p, replies, storage::Teardown::DetachMetadata)
                ==> plan::gets(p, replies, storage::Teardown::FindMetadata, Reply::Yes)
            &&& plan::does(p, replies, storage::Teardown::FindData)
                ==> plan::gets(p, replies, storage::Teardown::FindMetadata, Reply::No)
                || plan::does(p, replies, storage::Teardown::DetachMetadata)
            &&& plan::does(p, replies, storage::Teardown::DetachData)
                ==> plan::gets(p, replies, storage::Teardown::FindData, Reply::Yes)
            &&& plan::does(p, replies, storage::Teardown::AskPurge)
                ==> plan::gets(p, replies, storage::Teardown::FindData, Reply::No)
                || plan::does(p, replies, storage::Teardown::DetachData)
            &&& plan::does(p, replies, storage::Teardown::RemoveMetadata)
                ==> plan::gets(p, replies, storage::Teardown::AskPurge, Reply::Yes)
            &&& plan::does(p, replies, storage::Teardown::RemoveData)
                ==> plan::does(p, replies, storage::Teardown::RemoveMetadata)
            &&& plan::does(p, replies, storage::Teardown::RemoveDir)
                ==> plan::does(p, replies, storage::Teardown::RemoveData)
            &&& end == storage::Teardown::Done
                ==> plan::gets(p, replies, storage::Teardown::AskPurge, Reply::No)
                || plan::gets(p, replies, storage::Teardown::AskPurge, Reply::Error)
                || plan::does(p, replies, storage::Teardown::RemoveDir)
            &&& end == storage::Teardown::Done
                ==> plan::manages(p, replies, storage::Teardown::DropImages)
            &&& end == storage::Teardown::Done
                ==> plan::manages(p, replies, storage::Teardown::DropDisks)
            &&& end == storage::Teardown::Done
                ==> plan::manages(p, replies, storage::Teardown::AskPool)
            &&& end == storage::Teardown::Done
                ==> plan::manages(p, replies, storage::Teardown::FindMetadata)
            &&& end == storage::Teardown::Done
                ==> plan::manages(p, replies, storage::Teardown::FindData)
            &&& end == storage::Teardown::Done ==> plan::does(p, replies, storage::Teardown::AskPurge)
        }),
{
    let p = storage::Teardown::DropImages;
    let end = plan::reached(p, replies);
    assert(plan::does(p, replies, storage::Teardown::DropDisks)
        ==> plan::manages(p, replies, storage::Teardown::DropImages)) by {
        plan::lemma_way_in(
            p,
            replies,
            |x: storage::Teardown|
                x != storage::Teardown::DropImages && x != storage::Teardown::Failed,
            plan::managing(storage::Teardown::DropImages),
        );
    }
    assert(plan::does(p, replies, storage::Teardown::AskPool)
        ==> plan::manages(p, replies, storage::Teardown::DropDisks)) by {
        plan::lemma_way_in(
            p,
            replies,
            |x: storage::Teardown|
                x != storage::Teardown::DropImages && x != storage::Teardown::DropDisks
                    && x != storage::Teardown::Failed,
            plan::managing(storage::Teardown::DropDisks),
        );
    }
    assert(plan::does(p, replies, storage::Teardown::RemovePool)
        ==> plan::gets(p, replies, storage::Teardown::AskPool, Reply::Yes)) by {
        plan::lemma_way_in(
            p,
            replies,
            |x: storage::Teardown| x == storage::Teardown::RemovePool,
            plan::getting(storage::Teardown::AskPool, Reply::Yes),
        );
    }
    assert(plan::does(p, replies, storage::Teardown::FindMetadata)
        ==> plan::gets(p, replies, storage::Teardown::AskPool, Reply::No)
        || plan::manages(p, replies, storage::Teardown::RemovePool)) by {
        plan::lemma_way_in(
            p,
            replies,
            |x: storage::Teardown|
                x != storage::Teardown::DropImages && x != storage::Teardown::DropDisks
                    && x != storage::Teardown::AskPool && x != storage::Teardown::RemovePool
                    && x != storage::Teardown::Failed,
            plan::either(plan::getting(storage::Teardown::AskPool, Reply::No), plan::managing(storage::Teardown::RemovePool)),
        );
        plan::lemma_either(
            p,
            replies,
            plan::getting(storage::Teardown::AskPool, Reply::No),
            plan::managing(storage::Teardown::RemovePool),
        );
    }
    assert(plan::does(p, replies, storage::Teardown::DetachMetadata)
        ==> plan::gets(p, replies, storage::Teardown::FindMetadata, Reply::Yes)) by {
        plan::lemma_way_in(
            p,
            replies,
            |x: storage::Teardown| x == storage::Teardown::DetachMetadata,
            plan::getting(storage::Teardown::FindMetadata, Reply::Yes),
        );
    }
    assert(plan::does(p, replies, storage::Teardown::FindData)
        ==> plan::gets(p, replies, storage::Teardown::FindMetadata, Reply::No)
        || plan::does(p, replies, storage::Teardown::DetachMetadata)) by {
        plan::lemma_way_in(
            p,
            replies,
            |x: storage::Teardown|
                x == storage::Teardown::FindData || x == storage::Teardown::DetachData
                    || x == storage::Teardown::AskPurge
                    || x == storage::Teardown::RemoveMetadata
                    || x == storage::Teardown::RemoveData || x == storage::Teardown::RemoveDir
                    || x == storage::Teardown::Done,
            plan::either(plan::getting(storage::Teardown::FindMetadata, Reply::No), plan::doing(storage::Teardown::DetachMetadata)),
        );
        plan::lemma_either(
            p,
            replies,
            plan::getting(storage::Teardown::FindMetadata, Reply::No),
            plan::doing(storage::Teardown::DetachMetadata),
        );
    }
    assert(plan::does(p, replies, storage::Teardown::DetachData)
        ==> plan::gets(p, replies, storage::Teardown::FindData, Reply::Yes)) by {
        plan::lemma_way_in(
            p,
            replies,
            |x: storage::Teardown| x == storage::Teardown::DetachData,
            plan::getting(storage::Teardown::FindData, Reply::Yes),
        );
    }
    assert(plan::does(p, replies, storage::Teardown::AskPurge)
        ==> plan::gets(p, replies, storage::Teardown::FindData, Reply::No)
        || plan::does(p, replies, storage::Teardown::DetachData)) by {
        plan::lemma_way_in(
            p,
            replies,
            |x: storage::Teardown|
                x == storage::Teardown::AskPurge || x == storage::Teardown::RemoveMetadata
                    || x == storage::Teardown::RemoveData || x == storage::Teardown::RemoveDir
                    || x == storage::Teardown::Done,
            plan::either(plan::getting(storage::Teardown::FindData, Reply::No), plan::doing(storage::Teardown::DetachData)),
        );
        plan::lemma_either(
            p,
            replies,
            plan::getting(storage::Teardown::FindData, Reply::No),
            plan::doing(storage::Teardown::DetachData),
        );
    }
    assert(plan::does(p, replies, storage::Teardown::RemoveMetadata)
        ==> plan::gets(p, replies, storage::Teardown::AskPurge, Reply::Yes)) by {
        plan::lemma_way_in(
            p,
            replies,
            |x: storage::Teardown|
                x == storage::Teardown::RemoveMetadata || x == storage::Teardown::RemoveData
                    || x == storage::Teardown::RemoveDir,
            plan::getting(storage::Teardown::AskPurge, Reply::Yes),
        );
    }
    assert(plan::does(p, replies, storage::Teardown::RemoveData)
        ==> plan::does(p, replies, storage::Teardown::RemoveMetadata)) by {
        plan::lemma_way_in(
            p,
            replies,
            |x: storage::Teardown|
                x == storage::Teardown::RemoveData || x == storage::Teardown::RemoveDir,
            plan::doing(storage::Teardown::RemoveMetadata),
        );
    }
    assert(plan::does(p, replies, storage::Teardown::RemoveDir)
        ==> plan::does(p, replies, storage::Teardown::RemoveData)) by {
        plan::lemma_way_in(
            p,
            replies,
            |x: storage::Teardown| x == storage::Teardown::RemoveDir,
            plan::doing(storage::Teardown::RemoveData),
        );
    }
    assert(end == storage::Teardown::Done
        ==> plan::gets(p, replies, storage::Teardown::AskPurge, Reply::No)
        || plan::gets(p, replies, storage::Teardown::AskPurge, Reply::Error)
        || plan::does(p, replies, storage::Teardown::RemoveDir)) by {
        plan::lemma_way_in(
            p,
            replies,
            |x: storage::Teardown| x == storage::Teardown::Done,
            plan::either(plan::getting(storage::Teardown::AskPurge, Reply::No), plan::either(plan::getting(storage::Teardown::AskPurge, Reply::Error), plan::doing(storage::Teardown::RemoveDir))),
        );
        plan::lemma_either(
            p,
            replies,
            plan::getting(storage::Teardown::AskPurge, Reply::No),
            plan::either(plan::getting(storage::Teardown::AskPurge, Reply::Error), plan::doing(storage::Teardown::RemoveDir)),
        );
        plan::lemma_either(
            p,
            replies,
            plan::getting(storage::Teardown::AskPurge, Reply::Error),
            plan::doing(storage::Teardown::RemoveDir),
        );
    }
    assert(end == storage::Teardown::Done ==> plan::manages(p, replies, storage::Teardown::DropImages)) by {
        plan::lemma_way_in(
            p,
            replies,
            |x: storage::Teardown|
                x != storage::Teardown::DropImages && x != storage::Teardown::Failed,
            plan::managing(storage::Teardown::DropImages),
        );
    }
    assert(end == storage::Teardown::Done ==> plan::manages(p, replies, storage::Teardown::DropDisks)) by {
        plan::lemma_way_in(
            p,
            replies,
            |x: storage::Teardown|
                x != storage::Teardown::DropImages && x != storage::Teardown::DropDisks
                    && x != storage::Teardown::Failed,
            plan::managing(storage::Teardown::DropDisks),
        );
    }
    assert(end == storage::Teardown::Done ==> plan::manages(p, replies, storage::Teardown::AskPool)) by {
        plan::lemma_way_in(
            p,
            replies,
            |x: storage::Teardown|
                x != storage::Teardown::DropImages && x != storage::Teardown::DropDisks
                    && x != storage::Teardown::AskPool && x != storage::Teardown::Failed,
            plan::managing(storage::Teardown::AskPool),
        );
    }
    assert(end == storage::Teardown::Done ==> plan::manages(p, replies, storage::Teardown::FindMetadata)) by {
        plan::lemma_way_in(
            p,
            replies,
            |x: storage::Teardown|
                x != storage::Teardown::DropImages && x != storage::Teardown::DropDisks
                    && x != storage::Teardown::AskPool && x != storage::Teardown::RemovePool
                    && x != storage::Teardown::FindMetadata && x != storage::Teardown::Failed,
            plan::managing(storage::Teardown::FindMetadata),
        );
    }
    assert(end == storage::Teardown::Done ==> plan::manages(p, replies, storage::Teardown::FindData)) by {
        plan::lemma_way_in(
            p,
            replies,
            |x: storage::Teardown|
                x == storage::Teardown::DetachData || x == storage::Teardown::AskPurge
                    || x == storage::Teardown::RemoveMetadata
                    || x == storage::Teardown::RemoveData || x == storage::Teardown::RemoveDir
                    || x == storage::Teardown::Done,
            plan::managing(storage::Teardown::FindData),
        );
    }
    assert(end == storage::Teardown::Done ==> plan::does(p, replies, storage::Teardown::AskPurge)) by {
        plan::lemma_way_in(
            p,
            replies,
            |x: storage::Teardown|
                x == storage::Teardown::RemoveMetadata || x == storage::Teardown::RemoveData
                    || x == storage::Teardown::RemoveDir || x == storage::Teardown::Done,
            plan::doing(storage::Teardown::AskPurge),
        );
    }
}

/// A pool grows by its data file: the file is extended before the loop device is told
/// of its new size, the device is measured before the pool gets a table for that
/// size, and the pool has grown only where all of that was managed.
pub proof fn law_grow_order(replies: Seq<Reply>)
    ensures
        ({
            let p = storage::Grow::EnsurePool;
            let end = plan::reached(p, replies);
            &&& !storage::Grow::Done.doomed()
            &&& storage::Grow::Failed.doomed()
            &&& plan::does(p, replies, storage::Grow::AskDataFile)
                ==> plan::manages(p, replies, storage::Grow::EnsurePool)
            &&& plan::does(p, replies, storage::Grow::RequireGrowth)
                ==> plan::manages(p, replies, storage::Grow::AskDataFile)
            &&& plan::does(p, replies, storage::Grow::Extend)
                ==> plan::manages(p, replies, storage::Grow::RequireGrowth)
            &&& plan::does(p, replies, storage::Grow::FindMetadata)
                ==> plan::manages(p, replies, storage::Grow::Extend)
            &&& plan::does(p, replies, storage::Grow::FindData)
                ==> plan::manages(p, replies, storage::Grow::FindMetadata)
            &&& plan::does(p, replies, storage::Grow::Refresh)
                ==> plan::manages(p, replies, storage::Grow::FindData)
            &&& plan::does(p, replies, storage::Grow::MeasureData)
                ==> plan::manages(p, replies, storage::Grow::Refresh)
            &&& plan::does(p, replies, storage::Grow::Suspend)
                ==> plan::manages(p, replies, storage::Grow::MeasureData)
            &&& plan::does(p, replies, storage::Grow::Load)
                ==> plan::manages(p, replies, storage::Grow::Suspend)
            &&& plan::does(p, replies, storage::Grow::CheckLoad)
                ==> plan::manages(p, replies, storage::Grow::Load)
            &&& plan::does(p, replies, storage::Grow::Recover)
                ==> plan::gets(p, replies, storage::Grow::CheckLoad, Reply::Error)
            &&& plan::does(p, replies, storage::Grow::Resume)
                ==> plan::manages(p, replies, storage::Grow::CheckLoad)
            &&& end == storage::Grow::Done ==> plan::manages(p, replies, storage::Grow::Resume)
            &&& end == storage::Grow::Done ==> plan::manages(p, replies, storage::Grow::EnsurePool)
            &&& end == storage::Grow::Done ==> plan::manages(p, replies, storage::Grow::AskDataFile)
            &&& end == storage::Grow::Done ==> plan::manages(p, replies, storage::Grow::RequireGrowth)
            &&& end == storage::Grow::Done ==> plan::manages(p, replies, storage::Grow::Extend)
            &&& end == storage::Grow::Done ==> plan::manages(p, replies, storage::Grow::FindMetadata)
            &&& end == storage::Grow::Done ==> plan::manages(p, replies, storage::Grow::FindData)
            &&& end == storage::Grow::Done ==> plan::manages(p, replies, storage::Grow::Refresh)
            &&& end == storage::Grow::Done ==> plan::manages(p, replies, storage::Grow::MeasureData)
            &&& end == storage::Grow::Done ==> plan::manages(p, replies, storage::Grow::Suspend)
            &&& end == storage::Grow::Done ==> plan::manages(p, replies, storage::Grow::Load)
            &&& end == storage::Grow::Done ==> plan::manages(p, replies, storage::Grow::CheckLoad)
            &&& end == storage::Grow::Failed
                ==> plan::gets(p, replies, storage::Grow::EnsurePool, Reply::Error)
                || plan::gets(p, replies, storage::Grow::AskDataFile, Reply::Error)
                || plan::gets(p, replies, storage::Grow::RequireGrowth, Reply::Error)
                || plan::gets(p, replies, storage::Grow::Extend, Reply::Error)
                || plan::gets(p, replies, storage::Grow::FindMetadata, Reply::Error)
                || plan::gets(p, replies, storage::Grow::FindData, Reply::Error)
                || plan::gets(p, replies, storage::Grow::Refresh, Reply::Error)
                || plan::gets(p, replies, storage::Grow::MeasureData, Reply::Error)
                || plan::gets(p, replies, storage::Grow::Suspend, Reply::Error)
                || plan::gets(p, replies, storage::Grow::Load, Reply::Error)
                || plan::does(p, replies, storage::Grow::Recover)
                || plan::gets(p, replies, storage::Grow::Resume, Reply::Error)
        }),
{
    let p = storage::Grow::EnsurePool;
    let end = plan::reached(p, replies);
    assert(plan::does(p, replies, storage::Grow::AskDataFile)
        ==> plan::manages(p, replies, storage::Grow::EnsurePool)) by {
        plan::lemma_way_in(
            p,
            replies,
            |x: storage::Grow| x != storage::Grow::EnsurePool && x != storage::Grow::Failed,
            plan::managing(storage::Grow::EnsurePool),
        );
    }
    assert(plan::does(p, replies, storage::Grow::RequireGrowth)
        ==> plan::manages(p, replies, storage::Grow::AskDataFile)) by {
        plan::lemma_way_in(
            p,
            replies,
            |x: storage::Grow|
                x != storage::Grow::EnsurePool && x != storage::Grow::AskDataFile
                    && x != storage::Grow::Failed,
            plan::managing(storage::Grow::AskDataFile),
        );
    }
    assert(plan::does(p, replies, storage::Grow::Extend)
        ==> plan::manages(p, replies, storage::Grow::RequireGrowth)) by {
        plan::lemma_way_in(
            p,
            replies,
            |x: storage::Grow|
                x != storage::Grow::EnsurePool && x != storage::Grow::AskDataFile
                    && x != storage::Grow::RequireGrowth && x != storage::Grow::Failed,
            plan::managing(storage::Grow::RequireGrowth),
        );
    }
    assert(plan::does(p, replies, storage::Grow::FindMetadata)
        ==> plan::manages(p, replies, storage::Grow::Extend)) by {
        plan::lemma_way_in(
            p,
            replies,
            |x: storage::Grow|
                x != storage::Grow::EnsurePool && x != storage::Grow::AskDataFile
                    && x != storage::Grow::RequireGrowth && x != storage::Grow::Extend
                    && x != storage::Grow::Failed,
            plan::managing(storage::Grow::Extend),
        );
    }
    assert(plan::does(p, replies, storage::Grow::FindData)
        ==> plan::manages(p, replies, storage::Grow::FindMetadata)) by {
        plan::lemma_way_in(
            p,
            replies,
            |x: storage::Grow|
                x != storage::Grow::EnsurePool && x != storage::Grow::AskDataFile
                    && x != storage::Grow::RequireGrowth && x != storage::Grow::Extend
                    && x != storage::Grow::FindMetadata && x != storage::Grow::Failed,
            plan::managing(storage::Grow::FindMetadata),
        );
    }
    assert(plan::does(p, replies, storage::Grow::Refresh)
        ==> plan::manages(p, replies, storage::Grow::FindData)) by {
        plan::lemma_way_in(
            p,
            replies,
            |x: storage::Grow|
                x != storage::Grow::EnsurePool && x != storage::Grow::AskDataFile
                    && x != storage::Grow::RequireGrowth && x != storage::Grow::Extend
                    && x != storage::Grow::FindMetadata && x != storage::Grow::FindData
                    && x != storage::Grow::Failed,
            plan::managing(storage::Grow::FindData),
        );
    }
    assert(plan::does(p, replies, storage::Grow::MeasureData)
        ==> plan::manages(p, replies, storage::Grow::Refresh)) by {
        plan::lemma_way_in(
            p,
            replies,
            |x: storage::Grow|
                x == storage::Grow::MeasureData || x == storage::Grow::Suspend
                    || x == storage::Grow::Load || x == storage::Grow::CheckLoad
                    || x == storage::Grow::Recover || x == storage::Grow::Resume
                    || x == storage::Grow::Done,
            plan::managing(storage::Grow::Refresh),
        );
    }
    assert(plan::does(p, replies, storage::Grow::Suspend)
        ==> plan::manages(p, replies, storage::Grow::MeasureData)) by {
        plan::lemma_way_in(
            p,
            replies,
            |x: storage::Grow|
                x == storage::Grow::Suspend || x == storage::Grow::Load
                    || x == storage::Grow::CheckLoad || x == storage::Grow::Recover
                    || x == storage::Grow::Resume || x == storage::Grow::Done,
            plan::managing(storage::Grow::MeasureData),
        );
    }
    assert(plan::does(p, replies, storage::Grow::Load)
        ==> plan::manages(p, replies, storage::Grow::Suspend)) by {
        plan::lemma_way_in(
            p,
            replies,
            |x: storage::Grow|
                x == storage::Grow::Load || x == storage::Grow::CheckLoad
                    || x == storage::Grow::Recover || x == storage::Grow::Resume
                    || x == storage::Grow::Done,
            plan::managing(storage::Grow::Suspend),
        );
    }
    assert(plan::does(p, replies, storage::Grow::CheckLoad)
        ==> plan::manages(p, replies, storage::Grow::Load)) by {
        plan::lemma_way_in(
            p,
            replies,
            |x: storage::Grow|
                x == storage::Grow::CheckLoad || x == storage::Grow::Recover
                    || x == storage::Grow::Resume || x == storage::Grow::Done,
            plan::managing(storage::Grow::Load),
        );
    }
    assert(plan::does(p, replies, storage::Grow::Recover)
        ==> plan::gets(p, replies, storage::Grow::CheckLoad, Reply::Error)) by {
        plan::lemma_way_in(
            p,
            replies,
            |x: storage::Grow| x == storage::Grow::Recover,
            plan::getting(storage::Grow::CheckLoad, Reply::Error),
        );
    }
    assert(plan::does(p, replies, storage::Grow::Resume)
        ==> plan::manages(p, replies, storage::Grow::CheckLoad)) by {
        plan::lemma_way_in(
            p,
            replies,
            |x: storage::Grow| x == storage::Grow::Resume || x == storage::Grow::Done,
            plan::managing(storage::Grow::CheckLoad),
        );
    }
    assert(end == storage::Grow::Done ==> plan::manages(p, replies, storage::Grow::Resume)) by {
        plan::lemma_way_in(
            p,
            replies,
            |x: storage::Grow| x == storage::Grow::Done,
            plan::managing(storage::Grow::Resume),
        );
    }
    assert(end == storage::Grow::Done ==> plan::manages(p, replies, storage::Grow::EnsurePool)) by {
        plan::lemma_way_in(
            p,
            replies,
            |x: storage::Grow| x != storage::Grow::EnsurePool && x != storage::Grow::Failed,
            plan::managing(storage::Grow::EnsurePool),
        );
    }
    assert(end == storage::Grow::Done ==> plan::manages(p, replies, storage::Grow::AskDataFile)) by {
        plan::lemma_way_in(
            p,
            replies,
            |x: storage::Grow|
                x != storage::Grow::EnsurePool && x != storage::Grow::AskDataFile
                    && x != storage::Grow::Failed,
            plan::managing(storage::Grow::AskDataFile),
        );
    }
    assert(end == storage::Grow::Done ==> plan::manages(p, replies, storage::Grow::RequireGrowth)) by {
        plan::lemma_way_in(
            p,
            replies,
            |x: storage::Grow|
                x != storage::Grow::EnsurePool && x != storage::Grow::AskDataFile
                    && x != storage::Grow::RequireGrowth && x != storage::Grow::Failed,
            plan::managing(storage::Grow::RequireGrowth),
        );
    }
    assert(end == storage::Grow::Done ==> plan::manages(p, replies, storage::Grow::Extend)) by {
        plan::lemma_way_in(
            p,
            replies,
            |x: storage::Grow|
                x != storage::Grow::EnsurePool && x != storage::Grow::AskDataFile
                    && x != storage::Grow::RequireGrowth && x != storage::Grow::Extend
                    && x != storage::Grow::Failed,
            plan::managing(storage::Grow::Extend),
        );
    }
    assert(end == storage::Grow::Done ==> plan::manages(p, replies, storage::Grow::FindMetadata)) by {
        plan::lemma_way_in(
            p,
            replies,
            |x: storage::Grow|
                x != storage::Grow::EnsurePool && x != storage::Grow::AskDataFile
                    && x != storage::Grow::RequireGrowth && x != storage::Grow::Extend
                    && x != storage::Grow::FindMetadata && x != storage::Grow::Failed,
            plan::managing(storage::Grow::FindMetadata),
        );
    }
    assert(end == storage::Grow::Done ==> plan::manages(p, replies, storage::Grow::FindData)) by {
        plan::lemma_way_in(
            p,
            replies,
            |x: storage::Grow|
                x != storage::Grow::EnsurePool && x != storage::Grow::AskDataFile
                    && x != storage::Grow::RequireGrowth && x != storage::Grow::Extend
                    && x != storage::Grow::FindMetadata && x != storage::Grow::FindData
                    && x != storage::Grow::Failed,
            plan::managing(storage::Grow::FindData),
        );
    }
    assert(end == storage::Grow::Done ==> plan::manages(p, replies, storage::Grow::Refresh)) by {
        plan::lemma_way_in(
            p,
            replies,
            |x: storage::Grow|
                x == storage::Grow::MeasureData || x == storage::Grow::Suspend
                    || x == storage::Grow::Load || x == storage::Grow::CheckLoad
                    || x == storage::Grow::Recover || x == storage::Grow::Resume
                    || x == storage::Grow::Done,
            plan::managing(storage::Grow::Refresh),
        );
    }
    assert(end == storage::Grow::Done ==> plan::manages(p, replies, storage::Grow::MeasureData)) by {
        plan::lemma_way_in(
            p,
            replies,
            |x: storage::Grow|
                x == storage::Grow::Suspend || x == storage::Grow::Load
                    || x == storage::Grow::CheckLoad || x == storage::Grow::Recover
                    || x == storage::Grow::Resume || x == storage::Grow::Done,
            plan::managing(storage::Grow::MeasureData),
        );
    }
    assert(end == storage::Grow::Done ==> plan::manages(p, replies, storage::Grow::Suspend)) by {
        plan::lemma_way_in(
            p,
            replies,
            |x: storage::Grow|
                x == storage::Grow::Load || x == storage::Grow::CheckLoad
                    || x == storage::Grow::Recover || x == storage::Grow::Resume
                    || x == storage::Grow::Done,
            plan::managing(storage::Grow::Suspend),
        );
    }
    assert(end == storage::Grow::Done ==> plan::manages(p, replies, storage::Grow::Load)) by {
        plan::lemma_way_in(
            p,
            replies,
            |x: storage::Grow|
                x == storage::Grow::CheckLoad || x == storage::Grow::Recover
                    || x == storage::Grow::Resume || x == storage::Grow::Done,
            plan::managing(storage::Grow::Load),
        );
    }
    assert(end == storage::Grow::Done ==> plan::manages(p, replies, storage::Grow::CheckLoad)) by {
        plan::lemma_way_in(
            p,
            replies,
            |x: storage::Grow| x == storage::Grow::Resume || x == storage::Grow::Done,
            plan::managing(storage::Grow::CheckLoad),
        );
    }
    assert(end == storage::Grow::Failed
        ==> plan::gets(p, replies, storage::Grow::EnsurePool, Reply::Error)
        || plan::gets(p, replies, storage::Grow::AskDataFile, Reply::Error)
        || plan::gets(p, replies, storage::Grow::RequireGrowth, Reply::Error)
        || plan::gets(p, replies, storage::Grow::Extend, Reply::Error)
        || plan::gets(p, replies, storage::Grow::FindMetadata, Reply::Error)
        || plan::gets(p, replies, storage::Grow::FindData, Reply::Error)
        || plan::gets(p, replies, storage::Grow::Refresh, Reply::Error)
        || plan::gets(p, replies, storage::Grow::MeasureData, Reply::Error)
        || plan::gets(p, replies, storage::Grow::Suspend, Reply::Error)
        || plan::gets(p, replies, storage::Grow::Load, Reply::Error)
        || plan::does(p, replies, storage::Grow::Recover)
        || plan::gets(p, replies, storage::Grow::Resume, Reply::Error)) by {
        plan::lemma_way_in(
            p,
            replies,
            |x: storage::Grow| x == storage::Grow::Failed,
            plan::either(plan::getting(storage::Grow::EnsurePool, Reply::Error), plan::either(plan::getting(storage::Grow::AskDataFile, Reply::Error), plan::either(plan::getting(storage::Grow::RequireGrowth, Reply::Error), plan::either(plan::getting(storage::Grow::Extend, Reply::Error), plan::either(plan::getting(storage::Grow::FindMetadata, Reply::Error), plan::either(plan::getting(storage::Grow::FindData, Reply::Error), plan::either(plan::getting(storage::Grow::Refresh, Reply::Error), plan::either(plan::getting(storage::Grow::MeasureData, Reply::Error), plan::either(plan::getting(storage::Grow::Suspend, Reply::Error), plan::either(plan::getting(storage::Grow::Load, Reply::Error), plan::either(plan::doing(storage::Grow::Recover), plan::getting(storage::Grow::Resume, Reply::Error)))))))))))),
        );
        plan::lemma_either(
            p,
            replies,
            plan::getting(storage::Grow::EnsurePool, Reply::Error),
            plan::either(plan::getting(storage::Grow::AskDataFile, Reply::Error), plan::either(plan::getting(storage::Grow::RequireGrowth, Reply::Error), plan::either(plan::getting(storage::Grow::Extend, Reply::Error), plan::either(plan::getting(storage::Grow::FindMetadata, Reply::Error), plan::either(plan::getting(storage::Grow::FindData, Reply::Error), plan::either(plan::getting(storage::Grow::Refresh, Reply::Error), plan::either(plan::getting(storage::Grow::MeasureData, Reply::Error), plan::either(plan::getting(storage::Grow::Suspend, Reply::Error), plan::either(plan::getting(storage::Grow::Load, Reply::Error), plan::either(plan::doing(storage::Grow::Recover), plan::getting(storage::Grow::Resume, Reply::Error))))))))))),
        );
        plan::lemma_either(
            p,
            replies,
            plan::getting(storage::Grow::AskDataFile, Reply::Error),
            plan::either(plan::getting(storage::Grow::RequireGrowth, Reply::Error), plan::either(plan::getting(storage::Grow::Extend, Reply::Error), plan::either(plan::getting(storage::Grow::FindMetadata, Reply::Error), plan::either(plan::getting(storage::Grow::FindData, Reply::Error), plan::either(plan::getting(storage::Grow::Refresh, Reply::Error), plan::either(plan::getting(storage::Grow::MeasureData, Reply::Error), plan::either(plan::getting(storage::Grow::Suspend, Reply::Error), plan::either(plan::getting(storage::Grow::Load, Reply::Error), plan::either(plan::doing(storage::Grow::Recover), plan::getting(storage::Grow::Resume, Reply::Error)))))))))),
        );
        plan::lemma_either(
            p,
            replies,
            plan::getting(storage::Grow::RequireGrowth, Reply::Error),
            plan::either(plan::getting(storage::Grow::Extend, Reply::Error), plan::either(plan::getting(storage::Grow::FindMetadata, Reply::Error), plan::either(plan::getting(storage::Grow::FindData, Reply::Error), plan::either(plan::getting(storage::Grow::Refresh, Reply::Error), plan::either(plan::getting(storage::Grow::MeasureData, Reply::Error), plan::either(plan::getting(storage::Grow::Suspend, Reply::Error), plan::either(plan::getting(storage::Grow::Load, Reply::Error), plan::either(plan::doing(storage::Grow::Recover), plan::getting(storage::Grow::Resume, Reply::Error))))))))),
        );
        plan::lemma_either(
            p,
            replies,
            plan::getting(storage::Grow::Extend, Reply::Error),
            plan::either(plan::getting(storage::Grow::FindMetadata, Reply::Error), plan::either(plan::getting(storage::Grow::FindData, Reply::Error), plan::either(plan::getting(storage::Grow::Refresh, Reply::Error), plan::either(plan::getting(storage::Grow::MeasureData, Reply::Error), plan::either(plan::getting(storage::Grow::Suspend, Reply::Error), plan::either(plan::getting(storage::Grow::Load, Reply::Error), plan::either(plan::doing(storage::Grow::Recover), plan::getting(storage::Grow::Resume, Reply::Error)))))))),
        );
        plan::lemma_either(
            p,
            replies,
            plan::getting(storage::Grow::FindMetadata, Reply::Error),
            plan::either(plan::getting(storage::Grow::FindData, Reply::Error), plan::either(plan::getting(storage::Grow::Refresh, Reply::Error), plan::either(plan::getting(storage::Grow::MeasureData, Reply::Error), plan::either(plan::getting(storage::Grow::Suspend, Reply::Error), plan::either(plan::getting(storage::Grow::Load, Reply::Error), plan::either(plan::doing(storage::Grow::Recover), plan::getting(storage::Grow::Resume, Reply::Error))))))),
        );
        plan::lemma_either(
            p,
            replies,
            plan::getting(storage::Grow::FindData, Reply::Error),
            plan::either(plan::getting(storage::Grow::Refresh, Reply::Error), plan::either(plan::getting(storage::Grow::MeasureData, Reply::Error), plan::either(plan::getting(storage::Grow::Suspend, Reply::Error), plan::either(plan::getting(storage::Grow::Load, Reply::Error), plan::either(plan::doing(storage::Grow::Recover), plan::getting(storage::Grow::Resume, Reply::Error)))))),
        );
        plan::lemma_either(
            p,
            replies,
            plan::getting(storage::Grow::Refresh, Reply::Error),
            plan::either(plan::getting(storage::Grow::MeasureData, Reply::Error), plan::either(plan::getting(storage::Grow::Suspend, Reply::Error), plan::either(plan::getting(storage::Grow::Load, Reply::Error), plan::either(plan::doing(storage::Grow::Recover), plan::getting(storage::Grow::Resume, Reply::Error))))),
        );
        plan::lemma_either(
            p,
            replies,
            plan::getting(storage::Grow::MeasureData, Reply::Error),
            plan::either(plan::getting(storage::Grow::Suspend, Reply::Error), plan::either(plan::getting(storage::Grow::Load, Reply::Error), plan::either(plan::doing(storage::Grow::Recover), plan::getting(storage::Grow::Resume, Reply::Error)))),
        );
        plan::lemma_either(
            p,
            replies,
            plan::getting(storage::Grow::Suspend, Reply::Error),
            plan::either(plan::getting(storage::Grow::Load, Reply::Error), plan::either(plan::doing(storage::Grow::Recover), plan::getting(storage::Grow::Resume, Reply::Error))),
        );
        plan::lemma_either(
            p,
            replies,
            plan::getting(storage::Grow::Load, Reply::Error),
            plan::either(plan::doing(storage::Grow::Recover), plan::getting(storage::Grow::Resume, Reply::Error)),
        );
        plan::lemma_either(
            p,
            replies,
            plan::doing(storage::Grow::Recover),
            plan::getting(storage::Grow::Resume, Reply::Error),
        );
    }
}

/// A disk is mounted once its device is there, on a directory that was made for it. A
/// phase is done only after the ones it needs, and the work is done only where all of
/// them were.
pub proof fn law_mount_order(replies: Seq<Reply>)
    ensures
        ({
            let p = storage::MountDisk::WaitDevice;
            let end = plan::reached(p, replies);
            &&& !storage::MountDisk::Mounted.doomed()
            &&& storage::MountDisk::Failed.doomed()
            &&& plan::does(p, replies, storage::MountDisk::MakeDir)
                ==> plan::manages(p, replies, storage::MountDisk::WaitDevice)
            &&& plan::does(p, replies, storage::MountDisk::Mount)
                ==> plan::manages(p, replies, storage::MountDisk::MakeDir)
            &&& plan::does(p, replies, storage::MountDisk::CheckMount)
                ==> plan::manages(p, replies, storage::MountDisk::Mount)
            &&& plan::does(p, replies, storage::MountDisk::RemoveDir)
                ==> plan::gets(p, replies, storage::MountDisk::CheckMount, Reply::Error)
            &&& end == storage::MountDisk::Mounted
                ==> plan::manages(p, replies, storage::MountDisk::CheckMount)
            &&& end == storage::MountDisk::Mounted
                ==> plan::manages(p, replies, storage::MountDisk::WaitDevice)
            &&& end == storage::MountDisk::Mounted
                ==> plan::manages(p, replies, storage::MountDisk::MakeDir)
            &&& end == storage::MountDisk::Mounted
                ==> plan::manages(p, replies, storage::MountDisk::Mount)
            &&& end == storage::MountDisk::Failed
                ==> plan::gets(p, replies, storage::MountDisk::WaitDevice, Reply::Error)
                || plan::gets(p, replies, storage::MountDisk::MakeDir, Reply::Error)
                || plan::gets(p, replies, storage::MountDisk::Mount, Reply::Error)
                || plan::does(p, replies, storage::MountDisk::RemoveDir)
        }),
{
    let p = storage::MountDisk::WaitDevice;
    let end = plan::reached(p, replies);
    assert(plan::does(p, replies, storage::MountDisk::MakeDir)
        ==> plan::manages(p, replies, storage::MountDisk::WaitDevice)) by {
        plan::lemma_way_in(
            p,
            replies,
            |x: storage::MountDisk|
                x != storage::MountDisk::WaitDevice && x != storage::MountDisk::Failed,
            plan::managing(storage::MountDisk::WaitDevice),
        );
    }
    assert(plan::does(p, replies, storage::MountDisk::Mount)
        ==> plan::manages(p, replies, storage::MountDisk::MakeDir)) by {
        plan::lemma_way_in(
            p,
            replies,
            |x: storage::MountDisk|
                x != storage::MountDisk::WaitDevice && x != storage::MountDisk::MakeDir
                    && x != storage::MountDisk::Failed,
            plan::managing(storage::MountDisk::MakeDir),
        );
    }
    assert(plan::does(p, replies, storage::MountDisk::CheckMount)
        ==> plan::manages(p, replies, storage::MountDisk::Mount)) by {
        plan::lemma_way_in(
            p,
            replies,
            |x: storage::MountDisk|
                x == storage::MountDisk::CheckMount || x == storage::MountDisk::RemoveDir
                    || x == storage::MountDisk::Mounted,
            plan::managing(storage::MountDisk::Mount),
        );
    }
    assert(plan::does(p, replies, storage::MountDisk::RemoveDir)
        ==> plan::gets(p, replies, storage::MountDisk::CheckMount, Reply::Error)) by {
        plan::lemma_way_in(
            p,
            replies,
            |x: storage::MountDisk| x == storage::MountDisk::RemoveDir,
            plan::getting(storage::MountDisk::CheckMount, Reply::Error),
        );
    }
    assert(end == storage::MountDisk::Mounted
        ==> plan::manages(p, replies, storage::MountDisk::CheckMount)) by {
        plan::lemma_way_in(
            p,
            replies,
            |x: storage::MountDisk| x == storage::MountDisk::Mounted,
            plan::managing(storage::MountDisk::CheckMount),
        );
    }
    assert(end == storage::MountDisk::Mounted
        ==> plan::manages(p, replies, storage::MountDisk::WaitDevice)) by {
        plan::lemma_way_in(
            p,
            replies,
            |x: storage::MountDisk|
                x != storage::MountDisk::WaitDevice && x != storage::MountDisk::Failed,
            plan::managing(storage::MountDisk::WaitDevice),
        );
    }
    assert(end == storage::MountDisk::Mounted ==> plan::manages(p, replies, storage::MountDisk::MakeDir)) by {
        plan::lemma_way_in(
            p,
            replies,
            |x: storage::MountDisk|
                x != storage::MountDisk::WaitDevice && x != storage::MountDisk::MakeDir
                    && x != storage::MountDisk::Failed,
            plan::managing(storage::MountDisk::MakeDir),
        );
    }
    assert(end == storage::MountDisk::Mounted ==> plan::manages(p, replies, storage::MountDisk::Mount)) by {
        plan::lemma_way_in(
            p,
            replies,
            |x: storage::MountDisk|
                x == storage::MountDisk::CheckMount || x == storage::MountDisk::RemoveDir
                    || x == storage::MountDisk::Mounted,
            plan::managing(storage::MountDisk::Mount),
        );
    }
    assert(end == storage::MountDisk::Failed
        ==> plan::gets(p, replies, storage::MountDisk::WaitDevice, Reply::Error)
        || plan::gets(p, replies, storage::MountDisk::MakeDir, Reply::Error)
        || plan::gets(p, replies, storage::MountDisk::Mount, Reply::Error)
        || plan::does(p, replies, storage::MountDisk::RemoveDir)) by {
        plan::lemma_way_in(
            p,
            replies,
            |x: storage::MountDisk| x == storage::MountDisk::Failed,
            plan::either(plan::getting(storage::MountDisk::WaitDevice, Reply::Error), plan::either(plan::getting(storage::MountDisk::MakeDir, Reply::Error), plan::either(plan::getting(storage::MountDisk::Mount, Reply::Error), plan::doing(storage::MountDisk::RemoveDir)))),
        );
        plan::lemma_either(
            p,
            replies,
            plan::getting(storage::MountDisk::WaitDevice, Reply::Error),
            plan::either(plan::getting(storage::MountDisk::MakeDir, Reply::Error), plan::either(plan::getting(storage::MountDisk::Mount, Reply::Error), plan::doing(storage::MountDisk::RemoveDir))),
        );
        plan::lemma_either(
            p,
            replies,
            plan::getting(storage::MountDisk::MakeDir, Reply::Error),
            plan::either(plan::getting(storage::MountDisk::Mount, Reply::Error), plan::doing(storage::MountDisk::RemoveDir)),
        );
        plan::lemma_either(
            p,
            replies,
            plan::getting(storage::MountDisk::Mount, Reply::Error),
            plan::doing(storage::MountDisk::RemoveDir),
        );
    }
}

/// The steps that make the work fail.
pub open spec fn injection_faults() -> spec_fn(backend::Injection, Reply) -> bool {
    |x: backend::Injection, r: Reply|
        r == Reply::Error && (x == backend::Injection::Mount || x == backend::Injection::Inject
            || x == backend::Injection::Unmount)
}

/// The work fails in a run that takes one of these steps, and in no other.
pub proof fn law_injection_failures(replies: Seq<Reply>)
    ensures
        plan::reached(backend::Injection::Mount, replies).doomed() <==> plan::went(
            backend::Injection::Mount,
            replies,
            injection_faults(),
        ),
{
    let p = backend::Injection::Mount;
    plan::lemma_way_in(
        p,
        replies,
        |x: backend::Injection|
                x == backend::Injection::UnmountFailed || x == backend::Injection::Failed,
        injection_faults(),
    );
    plan::lemma_stays(
        p,
        replies,
        injection_faults(),
        |x: backend::Injection|
                x == backend::Injection::UnmountFailed || x == backend::Injection::Failed,
    );
}

/// The steps that make the work fail.
pub open spec fn reload_faults() -> spec_fn(pool::Reload, Reply) -> bool {
    |x: pool::Reload, r: Reply|
        r == Reply::Error && (x == pool::Reload::Suspend || x == pool::Reload::Load
            || x == pool::Reload::CheckLoad || x == pool::Reload::Resume)
}

/// The work fails in a run that takes one of these steps, and in no other.
pub proof fn law_reload_failures(replies: Seq<Reply>)
    ensures
        plan::reached(pool::Reload::Suspend, replies).doomed() <==> plan::went(
            pool::Reload::Suspend,
            replies,
            reload_faults(),
        ),
{
    let p = pool::Reload::Suspend;
    plan::lemma_way_in(
        p,
        replies,
        |x: pool::Reload| x == pool::Reload::Recover || x == pool::Reload::Failed,
        reload_faults(),
    );
    plan::lemma_stays(
        p,
        replies,
        reload_faults(),
        |x: pool::Reload| x == pool::Reload::Recover || x == pool::Reload::Failed,
    );
}

/// The steps that make the work fail: the failure of any other phase is lived with.
pub open spec fn activation_faults() -> spec_fn(storage::Activation, Reply) -> bool {
    |x: storage::Activation, r: Reply|
        r == Reply::Error && (x == storage::Activation::AskPool
            || x == storage::Activation::ListTargets || x == storage::Activation::FindMetadata
            || x == storage::Activation::AttachMetadata || x == storage::Activation::StatData
            || x == storage::Activation::FindData || x == storage::Activation::AttachData
            || x == storage::Activation::CheckMetadata || x == storage::Activation::MeasureData
            || x == storage::Activation::CreatePool)
}

/// The work fails in a run that takes one of these steps, and in no other.
pub proof fn law_activation_failures(replies: Seq<Reply>)
    ensures
        plan::reached(storage::Activation::AskPool, replies).doomed() <==> plan::went(
            storage::Activation::AskPool,
            replies,
            activation_faults(),
        ),
{
    let p = storage::Activation::AskPool;
    plan::lemma_way_in(
        p,
        replies,
        |x: storage::Activation| x == storage::Activation::Failed,
        activation_faults(),
    );
    plan::lemma_stays(
        p,
        replies,
        activation_faults(),
        |x: storage::Activation| x == storage::Activation::Failed,
    );
}

/// The steps that make the work fail: the failure of any other phase is lived with.
pub open spec fn init_faults() -> spec_fn(storage::Init, Reply) -> bool {
    |x: storage::Init, r: Reply|
        r == Reply::Error && (x == storage::Init::RequirePath || x == storage::Init::ListTargets
            || x == storage::Init::Layout || x == storage::Init::MeasureDevice
            || x == storage::Init::Metadata || x == storage::Init::AskMetadataSize
            || x == storage::Init::AskMetadataFile || x == storage::Init::MakeMetadataDir
            || x == storage::Init::CreateMetadata || x == storage::Init::AskDataFile
            || x == storage::Init::MakeDataDir || x == storage::Init::AskDataMissing
            || x == storage::Init::CreateData || x == storage::Init::ZeroHead
            || x == storage::Init::FindMetadata || x == storage::Init::AttachMetadata
            || x == storage::Init::StatData || x == storage::Init::FindData
            || x == storage::Init::AttachData || x == storage::Init::MeasureData
            || x == storage::Init::CreatePool)
}

/// The work fails in a run that takes one of these steps, and in no other.
pub proof fn law_init_failures(replies: Seq<Reply>)
    ensures
        plan::reached(storage::Init::RequirePath, replies).doomed() <==> plan::went(
            storage::Init::RequirePath,
            replies,
            init_faults(),
        ),
{
    let p = storage::Init::RequirePath;
    plan::lemma_way_in(
        p,
        replies,
        |x: storage::Init|
                x == storage::Init::DetachMetadataOnly || x == storage::Init::DetachMetadata
                    || x == storage::Init::AskDataLoop || x == storage::Init::DetachData
                    || x == storage::Init::Failed,
        init_faults(),
    );
    plan::lemma_stays(
        p,
        replies,
        init_faults(),
        |x: storage::Init|
                x == storage::Init::DetachMetadataOnly || x == storage::Init::DetachMetadata
                    || x == storage::Init::AskDataLoop || x == storage::Init::DetachData
                    || x == storage::Init::Failed,
    );
}

/// The steps that make the work fail: the failure of any other phase is lived with.
pub open spec fn image_faults() -> spec_fn(storage::ImageVolume, Reply) -> bool {
    |x: storage::ImageVolume, r: Reply|
        r == Reply::Error && (x == storage::ImageVolume::EnsurePool
            || x == storage::ImageVolume::CheckHealth || x == storage::ImageVolume::Allocate
            || x == storage::ImageVolume::Activate || x == storage::ImageVolume::Write
            || x == storage::ImageVolume::Suspend || x == storage::ImageVolume::Snapshot)
}

/// The work fails in a run that takes one of these steps, and in no other.
pub proof fn law_image_failures(replies: Seq<Reply>)
    ensures
        plan::reached(storage::ImageVolume::EnsurePool, replies).doomed() <==> plan::went(
            storage::ImageVolume::EnsurePool,
            replies,
            image_faults(),
        ),
{
    let p = storage::ImageVolume::EnsurePool;
    plan::lemma_way_in(
        p,
        replies,
        |x: storage::ImageVolume|
                x == storage::ImageVolume::ResumeFailed
                    || x == storage::ImageVolume::DeactivateFailed
                    || x == storage::ImageVolume::DeleteFailed
                    || x == storage::ImageVolume::Failed,
        image_faults(),
    );
    plan::lemma_stays(
        p,
        replies,
        image_faults(),
        |x: storage::ImageVolume|
                x == storage::ImageVolume::ResumeFailed
                    || x == storage::ImageVolume::DeactivateFailed
                    || x == storage::ImageVolume::DeleteFailed
                    || x == storage::ImageVolume::Failed,
    );
}

/// The steps that make the work fail.
pub open spec fn clone_faults() -> spec_fn(storage::CloneVolume, Reply) -> bool {
    |x: storage::CloneVolume, r: Reply|
        r == Reply::Error && (x == storage::CloneVolume::EnsurePool
            || x == storage::CloneVolume::CheckHealth || x == storage::CloneVolume::RequireId
            || x == storage::CloneVolume::Snapshot || x == storage::CloneVolume::Activate)
}

/// The work fails in a run that takes one of these steps, and in no other.
pub proof fn law_clone_failures(replies: Seq<Reply>)
    ensures
        plan::reached(storage::CloneVolume::EnsurePool, replies).doomed() <==> plan::went(
            storage::CloneVolume::EnsurePool,
            replies,
            clone_faults(),
        ),
{
    let p = storage::CloneVolume::EnsurePool;
    plan::lemma_way_in(
        p,
        replies,
        |x: storage::CloneVolume|
                x == storage::CloneVolume::Delete || x == storage::CloneVolume::Failed,
        clone_faults(),
    );
    plan::lemma_stays(
        p,
        replies,
        clone_faults(),
        |x: storage::CloneVolume|
                x == storage::CloneVolume::Delete || x == storage::CloneVolume::Failed,
    );
}

/// The steps that make the work fail.
pub open spec fn resize_faults() -> spec_fn(storage::ResizeVolume, Reply) -> bool {
    |x: storage::ResizeVolume, r: Reply|
        r == Reply::Error && (x == storage::ResizeVolume::EnsurePool
            || x == storage::ResizeVolume::CheckHealth || x == storage::ResizeVolume::RequireId
            || x == storage::ResizeVolume::AskDevice || x == storage::ResizeVolume::Activate
            || x == storage::ResizeVolume::Suspend || x == storage::ResizeVolume::Load
            || x == storage::ResizeVolume::CheckLoad || x == storage::ResizeVolume::Resume
            || x == storage::ResizeVolume::WaitDevice || x == storage::ResizeVolume::CheckFs
            || x == storage::ResizeVolume::GrowFs)
}

/// The work fails in a run that takes one of these steps, and in no other.
pub proof fn law_resize_failures(replies: Seq<Reply>)
    ensures
        plan::reached(storage::ResizeVolume::EnsurePool, replies).doomed() <==> plan::went(
            storage::ResizeVolume::EnsurePool,
            replies,
            resize_faults(),
        ),
{
    let p = storage::ResizeVolume::EnsurePool;
    plan::lemma_way_in(
        p,
        replies,
        |x: storage::ResizeVolume|
                x == storage::ResizeVolume::Recover || x == storage::ResizeVolume::Failed,
        resize_faults(),
    );
    plan::lemma_stays(
        p,
        replies,
        resize_faults(),
        |x: storage::ResizeVolume|
                x == storage::ResizeVolume::Recover || x == storage::ResizeVolume::Failed,
    );
}

/// The steps that make the work fail.
pub open spec fn open_faults() -> spec_fn(storage::OpenVolume, Reply) -> bool {
    |x: storage::OpenVolume, r: Reply|
        r == Reply::Error && (x == storage::OpenVolume::EnsurePool
            || x == storage::OpenVolume::RequireId || x == storage::OpenVolume::AskDevice
            || x == storage::OpenVolume::Activate)
}

/// The work fails in a run that takes one of these steps, and in no other.
pub proof fn law_open_failures(replies: Seq<Reply>)
    ensures
        plan::reached(storage::OpenVolume::EnsurePool, replies).doomed() <==> plan::went(
            storage::OpenVolume::EnsurePool,
            replies,
            open_faults(),
        ),
{
    let p = storage::OpenVolume::EnsurePool;
    plan::lemma_way_in(
        p,
        replies,
        |x: storage::OpenVolume| x == storage::OpenVolume::Failed,
        open_faults(),
    );
    plan::lemma_stays(
        p,
        replies,
        open_faults(),
        |x: storage::OpenVolume| x == storage::OpenVolume::Failed,
    );
}

/// The steps that make the work fail: the failure of any other phase is lived with.
pub open spec fn teardown_faults() -> spec_fn(storage::Teardown, Reply) -> bool {
    |x: storage::Teardown, r: Reply|
        r == Reply::Error && (x == storage::Teardown::DropImages
            || x == storage::Teardown::DropDisks || x == storage::Teardown::AskPool
            || x == storage::Teardown::RemovePool || x == storage::Teardown::FindMetadata
            || x == storage::Teardown::FindData)
}

/// The work fails in a run that takes one of these steps, and in no other.
pub proof fn law_teardown_failures(replies: Seq<Reply>)
    ensures
        plan::reached(storage::Teardown::DropImages, replies).doomed() <==> plan::went(
            storage::Teardown::DropImages,
            replies,
            teardown_faults(),
        ),
{
    let p = storage::Teardown::DropImages;
    plan::lemma_way_in(
        p,
        replies,
        |x: storage::Teardown| x == storage::Teardown::Failed,
        teardown_faults(),
    );
    plan::lemma_stays(
        p,
        replies,
        teardown_faults(),
        |x: storage::Teardown| x == storage::Teardown::Failed,
    );
}

/// The steps that make the work fail.
pub open spec fn grow_faults() -> spec_fn(storage::Grow, Reply) -> bool {
    |x: storage::Grow, r: Reply|
        r == Reply::Error && (x == storage::Grow::EnsurePool || x == storage::Grow::AskDataFile
            || x == storage::Grow::RequireGrowth || x == storage::Grow::Extend
            || x == storage::Grow::FindMetadata || x == storage::Grow::FindData
            || x == storage::Grow::Refresh || x == storage::Grow::MeasureData
            || x == storage::Grow::Suspend || x == storage::Grow::Load
            || x == storage::Grow::CheckLoad || x == storage::Grow::Resume)
}

/// The work fails in a run that takes one of these steps, and in no other.
pub proof fn law_grow_failures(replies: Seq<Reply>)
    ensures
        plan::reached(storage::Grow::EnsurePool, replies).doomed() <==> plan::went(
            storage::Grow::EnsurePool,
            replies,
            grow_faults(),
        ),
{
    let p = storage::Grow::EnsurePool;
    plan::lemma_way_in(
        p,
        replies,
        |x: storage::Grow| x == storage::Grow::Recover || x == storage::Grow::Failed,
        grow_faults(),
    );
    plan::lemma_stays(
        p,
        replies,
        grow_faults(),
        |x: storage::Grow| x == storage::Grow::Recover || x == storage::Grow::Failed,
    );
}

/// The steps that make the work fail.
pub open spec fn mount_faults() -> spec_fn(storage::MountDisk, Reply) -> bool {
    |x: storage::MountDisk, r: Reply|
        r == Reply::Error && (x == storage::MountDisk::WaitDevice
            || x == storage::MountDisk::MakeDir || x == storage::MountDisk::Mount
            || x == storage::MountDisk::CheckMount)
}

/// The work fails in a run that takes one of these steps, and in no other.
pub proof fn law_mount_failures(replies: Seq<Reply>)
    ensures
        plan::reached(storage::MountDisk::WaitDevice, replies).doomed() <==> plan::went(
            storage::MountDisk::WaitDevice,
            replies,
            mount_faults(),
        ),
{
    let p = storage::MountDisk::WaitDevice;
    plan::lemma_way_in(
        p,
        replies,
        |x: storage::MountDisk|
                x == storage::MountDisk::RemoveDir || x == storage::MountDisk::Failed,
        mount_faults(),
    );
    plan::lemma_stays(
        p,
        replies,
        mount_faults(),
        |x: storage::MountDisk|
                x == storage::MountDisk::RemoveDir || x == storage::MountDisk::Failed,
    );
}

} // verus!
