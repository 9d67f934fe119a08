//! The order of what the daemon does in a guest, in every run.
use crate::emberd::{checkpoint, reset};
use crate::plan;
use crate::plan::{Plan, Reply};
use vstd::prelude::*;

verus! {

/// A checkpoint is complete before it gets its name: the workspace and the scratch
/// files are stored, then the manifest is written, then it is published. A phase is
/// done only after the ones it needs, and the work is done only where all of them
/// were.
pub proof fn law_checkpoint_order(replies: Seq<Reply>)
    ensures
        ({
            let p = checkpoint::Checkpointing::MakeRoot;
            let end = plan::reached(p, replies);
            &&& !checkpoint::Checkpointing::Done.doomed()
            &&& checkpoint::Checkpointing::Failed.doomed()
            &&& plan::does(p, replies, checkpoint::Checkpointing::CheckQuota)
                ==> plan::manages(p, replies, checkpoint::Checkpointing::MakeRoot)
            &&& plan::does(p, replies, checkpoint::Checkpointing::ClearStaging)
                ==> plan::manages(p, replies, checkpoint::Checkpointing::CheckQuota)
            &&& plan::does(p, replies, checkpoint::Checkpointing::MakeStaging)
                ==> plan::does(p, replies, checkpoint::Checkpointing::ClearStaging)
            &&& plan::does(p, replies, checkpoint::Checkpointing::AskWorkspace)
                ==> plan::manages(p, replies, checkpoint::Checkpointing::MakeStaging)
            &&& plan::does(p, replies, checkpoint::Checkpointing::MakeEmpty)
                ==> plan::gets(p, replies, checkpoint::Checkpointing::AskWorkspace, Reply::No)
            &&& plan::does(p, replies, checkpoint::Checkpointing::CowCopy)
                ==> plan::gets(p, replies, checkpoint::Checkpointing::AskWorkspace, Reply::Yes)
            &&& plan::does(p, replies, checkpoint::Checkpointing::ClearPartial)
                ==> plan::gets(p, replies, checkpoint::Checkpointing::CowCopy, Reply::No)
                || plan::gets(p, replies, checkpoint::Checkpointing::CowCopy, Reply::Error)
            &&& plan::does(p, replies, checkpoint::Checkpointing::TarCreate)
                ==> plan::does(p, replies, checkpoint::Checkpointing::ClearPartial)
            &&& plan::does(p, replies, checkpoint::Checkpointing::MakeTmp)
                ==> plan::manages(p, replies, checkpoint::Checkpointing::MakeEmpty)
                || plan::gets(p, replies, checkpoint::Checkpointing::CowCopy, Reply::Yes)
                || plan::manages(p, replies, checkpoint::Checkpointing::TarCreate)
            &&& plan::does(p, replies, checkpoint::Checkpointing::CopyFiles)
                ==> plan::manages(p, replies, checkpoint::Checkpointing::MakeTmp)
            &&& plan::does(p, replies, checkpoint::Checkpointing::WriteManifest)
                ==> plan::manages(p, replies, checkpoint::Checkpointing::CopyFiles)
            &&& plan::does(p, replies, checkpoint::Checkpointing::ClearFinal)
                ==> plan::manages(p, replies, checkpoint::Checkpointing::WriteManifest)
            &&& plan::does(p, replies, checkpoint::Checkpointing::Publish)
                ==> plan::does(p, replies, checkpoint::Checkpointing::ClearFinal)
            &&& end == checkpoint::Checkpointing::Done
                ==> plan::manages(p, replies, checkpoint::Checkpointing::Publish)
            &&& end == checkpoint::Checkpointing::Done
                ==> plan::manages(p, replies, checkpoint::Checkpointing::MakeRoot)
            &&& end == checkpoint::Checkpointing::Done
                ==> plan::manages(p, replies, checkpoint::Checkpointing::CheckQuota)
            &&& end == checkpoint::Checkpointing::Done
                ==> plan::does(p, replies, checkpoint::Checkpointing::ClearStaging)
            &&& end == checkpoint::Checkpointing::Done
                ==> plan::manages(p, replies, checkpoint::Checkpointing::MakeStaging)
            &&& end == checkpoint::Checkpointing::Done
                ==> plan::manages(p, replies, checkpoint::Checkpointing::AskWorkspace)
            &&& end == checkpoint::Checkpointing::Done
                ==> plan::manages(p, replies, checkpoint::Checkpointing::MakeTmp)
            &&& end == checkpoint::Checkpointing::Done
                ==> plan::manages(p, replies, checkpoint::Checkpointing::CopyFiles)
            &&& end == checkpoint::Checkpointing::Done
                ==> plan::manages(p, replies, checkpoint::Checkpointing::WriteManifest)
            &&& end == checkpoint::Checkpointing::Done
                ==> plan::does(p, replies, checkpoint::Checkpointing::ClearFinal)
        }),
{
    let p = checkpoint::Checkpointing::MakeRoot;
    let end = plan::reached(p, replies);
    assert(plan::does(p, replies, checkpoint::Checkpointing::CheckQuota)
        ==> plan::manages(p, replies, checkpoint::Checkpointing::MakeRoot)) by {
        plan::lemma_way_in(
            p,
            replies,
            |x: checkpoint::Checkpointing|
                x != checkpoint::Checkpointing::MakeRoot
                    && x != checkpoint::Checkpointing::Failed,
            plan::managing(checkpoint::Checkpointing::MakeRoot),
        );
    }
    assert(plan::does(p, replies, checkpoint::Checkpointing::ClearStaging)
        ==> plan::manages(p, replies, checkpoint::Checkpointing::CheckQuota)) by {
        plan::lemma_way_in(
            p,
            replies,
            |x: checkpoint::Checkpointing|
                x != checkpoint::Checkpointing::MakeRoot
                    && x != checkpoint::Checkpointing::CheckQuota
                    && x != checkpoint::Checkpointing::Failed,
            plan::managing(checkpoint::Checkpointing::CheckQuota),
        );
    }
    assert(plan::does(p, replies, checkpoint::Checkpointing::MakeStaging)
        ==> plan::does(p, replies, checkpoint::Checkpointing::ClearStaging)) by {
        plan::lemma_way_in(
            p,
            replies,
            |x: checkpoint::Checkpointing|
                x != checkpoint::Checkpointing::MakeRoot
                    && x != checkpoint::Checkpointing::CheckQuota
                    && x != checkpoint::Checkpointing::ClearStaging
                    && x != checkpoint::Checkpointing::Failed,
            plan::doing(checkpoint::Checkpointing::ClearStaging),
        );
    }
    assert(plan::does(p, replies, checkpoint::Checkpointing::AskWorkspace)
        ==> plan::manages(p, replies, checkpoint::Checkpointing::MakeStaging)) by {
        plan::lemma_way_in(
            p,
            replies,
            |x: checkpoint::Checkpointing|
                x != checkpoint::Checkpointing::MakeRoot
                    && x != checkpoint::Checkpointing::CheckQuota
                    && x != checkpoint::Checkpointing::ClearStaging
                    && x != checkpoint::Checkpointing::MakeStaging
                    && x != checkpoint::Checkpointing::Failed,
            plan::managing(checkpoint::Checkpointing::MakeStaging),
        );
    }
    assert(plan::does(p, replies, checkpoint::Checkpointing::MakeEmpty)
        ==> plan::gets(p, replies, checkpoint::Checkpointing::AskWorkspace, Reply::No)) by {
        plan::lemma_way_in(
            p,
            replies,
            |x: checkpoint::Checkpointing| x == checkpoint::Checkpointing::MakeEmpty,
            plan::getting(checkpoint::Checkpointing::AskWorkspace, Reply::No),
        );
    }
    assert(plan::does(p, replies, checkpoint::Checkpointing::CowCopy)
        ==> plan::gets(p, replies, checkpoint::Checkpointing::AskWorkspace, Reply::Yes)) by {
        plan::lemma_way_in(
            p,
            replies,
            |x: checkpoint::Checkpointing|
                x == checkpoint::Checkpointing::CowCopy
                    || x == checkpoint::Checkpointing::ClearPartial
                    || x == checkpoint::Checkpointing::TarCreate,
            plan::getting(checkpoint::Checkpointing::AskWorkspace, Reply::Yes),
        );
    }
    assert(plan::does(p, replies, checkpoint::Checkpointing::ClearPartial)
        ==> plan::gets(p, replies, checkpoint::Checkpointing::CowCopy, Reply::No)
        || plan::gets(p, replies, checkpoint::Checkpointing::CowCopy, Reply::Error)) by {
        plan::lemma_way_in(
            p,
            replies,
            |x: checkpoint::Checkpointing|
                x == checkpoint::Checkpointing::ClearPartial
                    || x == checkpoint::Checkpointing::TarCreate,
            plan::either(plan::getting(checkpoint::Checkpointing::CowCopy, Reply::No), plan::getting(checkpoint::Checkpointing::CowCopy, Reply::Error)),
        );
        plan::lemma_either(
            p,
            replies,
            plan::getting(checkpoint::Checkpointing::CowCopy, Reply::No),
            plan::getting(checkpoint::Checkpointing::CowCopy, Reply::Error),
        );
    }
    assert(plan::does(p, replies, checkpoint::Checkpointing::TarCreate)
        ==> plan::does(p, replies, checkpoint::Checkpointing::ClearPartial)) by {
        plan::lemma_way_in(
            p,
            replies,
            |x: checkpoint::Checkpointing| x == checkpoint::Checkpointing::TarCreate,
            plan::doing(checkpoint::Checkpointing::ClearPartial),
        );
    }
    assert(plan::does(p, replies, checkpoint::Checkpointing::MakeTmp)
        ==> plan::manages(p, replies, checkpoint::Checkpointing::MakeEmpty)
        || plan::gets(p, replies, checkpoint::Checkpointing::CowCopy, Reply::Yes)
        || plan::manages(p, replies, checkpoint::Checkpointing::TarCreate)) by {
        plan::lemma_way_in(
            p,
            replies,
            |x: checkpoint::Checkpointing|
                x == checkpoint::Checkpointing::MakeTmp
                    || x == checkpoint::Checkpointing::CopyFiles
                    || x == checkpoint::Checkpointing::WriteManifest
                    || x == checkpoint::Checkpointing::ClearFinal
                    || x == checkpoint::Checkpointing::Publish
                    || x == checkpoint::Checkpointing::Done,
            plan::either(plan::managing(checkpoint::Checkpointing::MakeEmpty), plan::either(plan::getting(checkpoint::Checkpointing::CowCopy, Reply::Yes), plan::managing(checkpoint::Checkpointing::TarCreate))),
        );
        plan::lemma_either(
            p,
            replies,
            plan::managing(checkpoint::Checkpointing::MakeEmpty),
            plan::either(plan::getting(checkpoint::Checkpointing::CowCopy, Reply::Yes), plan::managing(checkpoint::Checkpointing::TarCreate)),
        );
        plan::lemma_either(
            p,
            replies,
            plan::getting(checkpoint::Checkpointing::CowCopy, Reply::Yes),
            plan::managing(checkpoint::Checkpointing::TarCreate),
        );
    }
    assert(plan::does(p, replies, checkpoint::Checkpointing::CopyFiles)
        ==> plan::manages(p, replies, checkpoint::Checkpointing::MakeTmp)) by {
        plan::lemma_way_in(
            p,
            replies,
            |x: checkpoint::Checkpointing|
                x == checkpoint::Checkpointing::CopyFiles
                    || x == checkpoint::Checkpointing::WriteManifest
                    || x == checkpoint::Checkpointing::ClearFinal
                    || x == checkpoint::Checkpointing::Publish
                    || x == checkpoint::Checkpointing::Done,
            plan::managing(checkpoint::Checkpointing::MakeTmp),
        );
    }
    assert(plan::does(p, replies, checkpoint::Checkpointing::WriteManifest)
        ==> plan::manages(p, replies, checkpoint::Checkpointing::CopyFiles)) by {
        plan::lemma_way_in(
            p,
            replies,
            |x: checkpoint::Checkpointing|
                x == checkpoint::Checkpointing::WriteManifest
                    || x == checkpoint::Checkpointing::ClearFinal
                    || x == checkpoint::Checkpointing::Publish
                    || x == checkpoint::Checkpointing::Done,
            plan::managing(checkpoint::Checkpointing::CopyFiles),
        );
    }
    assert(plan::does(p, replies, checkpoint::Checkpointing::ClearFinal)
        ==> plan::manages(p, replies, checkpoint::Checkpointing::WriteManifest)) by {
        plan::lemma_way_in(
            p,
            replies,
            |x: checkpoint::Checkpointing|
                x == checkpoint::Checkpointing::ClearFinal
                    || x == checkpoint::Checkpointing::Publish
                    || x == checkpoint::Checkpointing::Done,
            plan::managing(checkpoint::Checkpointing::WriteManifest),
        );
    }
    assert(plan::does(p, replies, checkpoint::Checkpointing::Publish)
        ==> plan::does(p, replies, checkpoint::Checkpointing::ClearFinal)) by {
        plan::lemma_way_in(
            p,
            replies,
            |x: checkpoint::Checkpointing|
                x == checkpoint::Checkpointing::Publish || x == checkpoint::Checkpointing::Done,
            plan::doing(checkpoint::Checkpointing::ClearFinal),
        );
    }
    assert(end == checkpoint::Checkpointing::Done
        ==> plan::manages(p, replies, checkpoint::Checkpointing::Publish)) by {
        plan::lemma_way_in(
            p,
            replies,
            |x: checkpoint::Checkpointing| x == checkpoint::Checkpointing::Done,
            plan::managing(checkpoint::Checkpointing::Publish),
        );
    }
    assert(end == checkpoint::Checkpointing::Done
        ==> plan::manages(p, replies, checkpoint::Checkpointing::MakeRoot)) by {
        plan::lemma_way_in(
            p,
            replies,
            |x: checkpoint::Checkpointing|
                x != checkpoint::Checkpointing::MakeRoot
                    && x != checkpoint::Checkpointing::Failed,
            plan::managing(checkpoint::Checkpointing::MakeRoot),
        );
    }
    assert(end == checkpoint::Checkpointing::Done
        ==> plan::manages(p, replies, checkpoint::Checkpointing::CheckQuota)) by {
        plan::lemma_way_in(
            p,
            replies,
            |x: checkpoint::Checkpointing|
                x != checkpoint::Checkpointing::MakeRoot
                    && x != checkpoint::Checkpointing::CheckQuota
                    && x != checkpoint::Checkpointing::Failed,
            plan::managing(checkpoint::Checkpointing::CheckQuota),
        );
    }
    assert(end == checkpoint::Checkpointing::Done
        ==> plan::does(p, replies, checkpoint::Checkpointing::ClearStaging)) by {
        plan::lemma_way_in(
            p,
            replies,
            |x: checkpoint::Checkpointing|
                x != checkpoint::Checkpointing::MakeRoot
                    && x != checkpoint::Checkpointing::CheckQuota
                    && x != checkpoint::Checkpointing::ClearStaging
                    && x != checkpoint::Checkpointing::Failed,
            plan::doing(checkpoint::Checkpointing::ClearStaging),
        );
    }
    assert(end == checkpoint::Checkpointing::Done
        ==> plan::manages(p, replies, checkpoint::Checkpointing::MakeStaging)) by {
        plan::lemma_way_in(
            p,
            replies,
            |x: checkpoint::Checkpointing|
                x != checkpoint::Checkpointing::MakeRoot
                    && x != checkpoint::Checkpointing::CheckQuota
                    && x != checkpoint::Checkpointing::ClearStaging
                    && x != checkpoint::Checkpointing::MakeStaging
                    && x != checkpoint::Checkpointing::Failed,
            plan::managing(checkpoint::Checkpointing::MakeStaging),
        );
    }
    assert(end == checkpoint::Checkpointing::Done
        ==> plan::manages(p, replies, checkpoint::Checkpointing::AskWorkspace)) by {
        plan::lemma_way_in(
            p,
            replies,
            |x: checkpoint::Checkpointing|
                x != checkpoint::Checkpointing::MakeRoot
                    && x != checkpoint::Checkpointing::CheckQuota
                    && x != checkpoint::Checkpointing::ClearStaging
                    && x != checkpoint::Checkpointing::MakeStaging
                    && x != checkpoint::Checkpointing::AskWorkspace
                    && x != checkpoint::Checkpointing::Failed,
            plan::managing(checkpoint::Checkpointing::AskWorkspace),
        );
    }
    assert(end == checkpoint::Checkpointing::Done
        ==> plan::manages(p, replies, checkpoint::Checkpointing::MakeTmp)) by {
        plan::lemma_way_in(
            p,
            replies,
            |x: checkpoint::Checkpointing|
                x == checkpoint::Checkpointing::CopyFiles
                    || x == checkpoint::Checkpointing::WriteManifest
                    || x == checkpoint::Checkpointing::ClearFinal
                    || x == checkpoint::Checkpointing::Publish
                    || x == checkpoint::Checkpointing::Done,
            plan::managing(checkpoint::Checkpointing::MakeTmp),
        );
    }
    assert(end == checkpoint::Checkpointing::Done
        ==> plan::manages(p, replies, checkpoint::Checkpointing::CopyFiles)) by {
        plan::lemma_way_in(
            p,
            replies,
            |x: checkpoint::Checkpointing|
                x == checkpoint::Checkpointing::WriteManifest
                    || x == checkpoint::Checkpointing::ClearFinal
                    || x == checkpoint::Checkpointing::Publish
                    || x == checkpoint::Checkpointing::Done,
            plan::managing(checkpoint::Checkpointing::CopyFiles),
        );
    }
    assert(end == checkpoint::Checkpointing::Done
        ==> plan::manages(p, replies, checkpoint::Checkpointing::WriteManifest)) by {
        plan::lemma_way_in(
            p,
            replies,
            |x: checkpoint::Checkpointing|
                x == checkpoint::Checkpointing::ClearFinal
                    || x == checkpoint::Checkpointing::Publish
                    || x == checkpoint::Checkpointing::Done,
            plan::managing(checkpoint::Checkpointing::WriteManifest),
        );
    }
    assert(end == checkpoint::Checkpointing::Done
        ==> plan::does(p, replies, checkpoint::Checkpointing::ClearFinal)) by {
        plan::lemma_way_in(
            p,
            replies,
            |x: checkpoint::Checkpointing|
                x == checkpoint::Checkpointing::Publish || x == checkpoint::Checkpointing::Done,
            plan::doing(checkpoint::Checkpointing::ClearFinal),
        );
    }
}

/// A checkpoint is unpacked beside the workspace before it takes its place, and the
/// old workspace goes only after that. A phase is done only after the ones it needs,
/// and the work is done only where all of them were.
pub proof fn law_restore_order(replies: Seq<Reply>)
    ensures
        ({
            let p = checkpoint::Restoring::AskDir;
            let end = plan::reached(p, replies);
            &&& !checkpoint::Restoring::Done.doomed()
            &&& checkpoint::Restoring::Failed.doomed()
            &&& plan::does(p, replies, checkpoint::Restoring::ReadManifest)
                ==> plan::manages(p, replies, checkpoint::Restoring::AskDir)
            &&& plan::does(p, replies, checkpoint::Restoring::ParseManifest)
                ==> plan::manages(p, replies, checkpoint::Restoring::ReadManifest)
            &&& plan::does(p, replies, checkpoint::Restoring::AskParent)
                ==> plan::manages(p, replies, checkpoint::Restoring::ParseManifest)
            &&& plan::does(p, replies, checkpoint::Restoring::ClearStage)
                ==> plan::manages(p, replies, checkpoint::Restoring::AskParent)
            &&& plan::does(p, replies, checkpoint::Restoring::ClearOld)
                ==> plan::does(p, replies, checkpoint::Restoring::ClearStage)
            &&& plan::does(p, replies, checkpoint::Restoring::AskCow)
                ==> plan::does(p, replies, checkpoint::Restoring::ClearOld)
            &&& plan::does(p, replies, checkpoint::Restoring::CowCopy)
                ==> plan::gets(p, replies, checkpoint::Restoring::AskCow, Reply::Yes)
            &&& plan::does(p, replies, checkpoint::Restoring::MakeStage)
                ==> plan::gets(p, replies, checkpoint::Restoring::AskCow, Reply::No)
            &&& plan::does(p, replies, checkpoint::Restoring::ClearUntar)
                ==> plan::manages(p, replies, checkpoint::Restoring::MakeStage)
            &&& plan::does(p, replies, checkpoint::Restoring::MakeUntar)
                ==> plan::does(p, replies, checkpoint::Restoring::ClearUntar)
            &&& plan::does(p, replies, checkpoint::Restoring::Unpack)
                ==> plan::manages(p, replies, checkpoint::Restoring::MakeUntar)
            &&& plan::does(p, replies, checkpoint::Restoring::CheckUnpacked)
                ==> plan::manages(p, replies, checkpoint::Restoring::Unpack)
            &&& plan::does(p, replies, checkpoint::Restoring::DropUntar)
                ==> plan::gets(p, replies, checkpoint::Restoring::CheckUnpacked, Reply::Error)
            &&& plan::does(p, replies, checkpoint::Restoring::FindInner)
                ==> plan::manages(p, replies, checkpoint::Restoring::CheckUnpacked)
            &&& plan::does(p, replies, checkpoint::Restoring::PlaceInner)
                ==> plan::manages(p, replies, checkpoint::Restoring::FindInner)
            &&& plan::does(p, replies, checkpoint::Restoring::ClearUnpacked)
                ==> plan::manages(p, replies, checkpoint::Restoring::PlaceInner)
            &&& plan::does(p, replies, checkpoint::Restoring::Count)
                ==> plan::manages(p, replies, checkpoint::Restoring::CowCopy)
                || plan::does(p, replies, checkpoint::Restoring::ClearUnpacked)
            &&& plan::does(p, replies, checkpoint::Restoring::AskLive)
                ==> plan::does(p, replies, checkpoint::Restoring::Count)
            &&& plan::does(p, replies, checkpoint::Restoring::SwapIn)
                ==> plan::gets(p, replies, checkpoint::Restoring::AskLive, Reply::No)
            &&& plan::does(p, replies, checkpoint::Restoring::MoveAside)
                ==> plan::gets(p, replies, checkpoint::Restoring::AskLive, Reply::Yes)
            &&& plan::does(p, replies, checkpoint::Restoring::Swap)
                ==> plan::manages(p, replies, checkpoint::Restoring::MoveAside)
            &&& plan::does(p, replies, checkpoint::Restoring::RollBack)
                ==> plan::gets(p, replies, checkpoint::Restoring::Swap, Reply::Error)
            &&& plan::does(p, replies, checkpoint::Restoring::DropOld)
                ==> plan::manages(p, replies, checkpoint::Restoring::Swap)
            &&& plan::does(p, replies, checkpoint::Restoring::RemoveScratch)
                ==> plan::manages(p, replies, checkpoint::Restoring::SwapIn)
                || plan::does(p, replies, checkpoint::Restoring::DropOld)
            &&& plan::does(p, replies, checkpoint::Restoring::CopyScratch)
                ==> plan::does(p, replies, checkpoint::Restoring::RemoveScratch)
            &&& end == checkpoint::Restoring::Done
                ==> plan::does(p, replies, checkpoint::Restoring::CopyScratch)
            &&& end == checkpoint::Restoring::Done
                ==> plan::manages(p, replies, checkpoint::Restoring::AskDir)
            &&& end == checkpoint::Restoring::Done
                ==> plan::manages(p, replies, checkpoint::Restoring::ReadManifest)
            &&& end == checkpoint::Restoring::Done
                ==> plan::manages(p, replies, checkpoint::Restoring::ParseManifest)
            &&& end == checkpoint::Restoring::Done
                ==> plan::manages(p, replies, checkpoint::Restoring::AskParent)
            &&& end == checkpoint::Restoring::Done
                ==> plan::does(p, replies, checkpoint::Restoring::ClearStage)
            &&& end == checkpoint::Restoring::Done
                ==> plan::does(p, replies, checkpoint::Restoring::ClearOld)
            &&& end == checkpoint::Restoring::Done
                ==> plan::manages(p, replies, checkpoint::Restoring::AskCow)
            &&& end == checkpoint::Restoring::Done
                ==> plan::does(p, replies, checkpoint::Restoring::Count)
            &&& end == checkpoint::Restoring::Done
                ==> plan::manages(p, replies, checkpoint::Restoring::AskLive)
            &&& end == checkpoint::Restoring::Done
                ==> plan::does(p, replies, checkpoint::Restoring::RemoveScratch)
            &&& end == checkpoint::Restoring::Failed
                ==> plan::gets(p, replies, checkpoint::Restoring::AskDir, Reply::Error)
                || plan::gets(p, replies, checkpoint::Restoring::ReadManifest, Reply::Error)
                || plan::gets(p, replies, checkpoint::Restoring::ParseManifest, Reply::Error)
                || plan::gets(p, replies, checkpoint::Restoring::AskParent, Reply::Error)
                || plan::gets(p, replies, checkpoint::Restoring::AskCow, Reply::Error)
                || plan::gets(p, replies, checkpoint::Restoring::CowCopy, Reply::Error)
                || plan::gets(p, replies, checkpoint::Restoring::MakeStage, Reply::Error)
                || plan::gets(p, replies, checkpoint::Restoring::MakeUntar, Reply::Error)
                || plan::gets(p, replies, checkpoint::Restoring::Unpack, Reply::Error)
                || plan::does(p, replies, checkpoint::Restoring::DropUntar)
                || plan::gets(p, replies, checkpoint::Restoring::FindInner, Reply::Error)
                || plan::gets(p, replies, checkpoint::Restoring::PlaceInner, Reply::Error)
                || plan::gets(p, replies, checkpoint::Restoring::AskLive, Reply::Error)
                || plan::gets(p, replies, checkpoint::Restoring::SwapIn, Reply::Error)
                || plan::gets(p, replies, checkpoint::Restoring::MoveAside, Reply::Error)
                || plan::does(p, replies, checkpoint::Restoring::RollBack)
        }),
{
    let p = checkpoint::Restoring::AskDir;
    let end = plan::reached(p, replies);
    assert(plan::does(p, replies, checkpoint::Restoring::ReadManifest)
        ==> plan::manages(p, replies, checkpoint::Restoring::AskDir)) by {
        plan::lemma_way_in(
            p,
            replies,
            |x: checkpoint::Restoring|
                x != checkpoint::Restoring::AskDir && x != checkpoint::Restoring::Failed,
            plan::managing(checkpoint::Restoring::AskDir),
        );
    }
    assert(plan::does(p, replies, checkpoint::Restoring::ParseManifest)
        ==> plan::manages(p, replies, checkpoint::Restoring::ReadManifest)) by {
        plan::lemma_way_in(
            p,
            replies,
            |x: checkpoint::Restoring|
                x != checkpoint::Restoring::AskDir && x != checkpoint::Restoring::ReadManifest
                    && x != checkpoint::Restoring::Failed,
            plan::managing(checkpoint::Restoring::ReadManifest),
        );
    }
    assert(plan::does(p, replies, checkpoint::Restoring::AskParent)
        ==> plan::manages(p, replies, checkpoint::Restoring::ParseManifest)) by {
        plan::lemma_way_in(
            p,
            replies,
            |x: checkpoint::Restoring|
                x != checkpoint::Restoring::AskDir && x != checkpoint::Restoring::ReadManifest
                    && x != checkpoint::Restoring::ParseManifest
                    && x != checkpoint::Restoring::Failed,
            plan::managing(checkpoint::Restoring::ParseManifest),
        );
    }
    assert(plan::does(p, replies, checkpoint::Restoring::ClearStage)
        ==> plan::manages(p, replies, checkpoint::Restoring::AskParent)) by {
        plan::lemma_way_in(
            p,
            replies,
            |x: checkpoint::Restoring|
                x != checkpoint::Restoring::AskDir && x != checkpoint::Restoring::ReadManifest
                    && x != checkpoint::Restoring::ParseManifest
                    && x != checkpoint::Restoring::AskParent
                    && x != checkpoint::Restoring::Failed,
            plan::managing(checkpoint::Restoring::AskParent),
        );
    }
    assert(plan::does(p, replies, checkpoint::Restoring::ClearOld)
        ==> plan::does(p, replies, checkpoint::Restoring::ClearStage)) by {
        plan::lemma_way_in(
            p,
            replies,
            |x: checkpoint::Restoring|
                x != checkpoint::Restoring::AskDir && x != checkpoint::Restoring::ReadManifest
                    && x != checkpoint::Restoring::ParseManifest
                    && x != checkpoint::Restoring::AskParent
                    && x != checkpoint::Restoring::ClearStage
                    && x != checkpoint::Restoring::Failed,
            plan::doing(checkpoint::Restoring::ClearStage),
        );
    }
    assert(plan::does(p, replies, checkpoint::Restoring::AskCow)
        ==> plan::does(p, replies, checkpoint::Restoring::ClearOld)) by {
        plan::lemma_way_in(
            p,
            replies,
            |x: checkpoint::Restoring|
                x != checkpoint::Restoring::AskDir && x != checkpoint::Restoring::ReadManifest
                    && x != checkpoint::Restoring::ParseManifest
                    && x != checkpoint::Restoring::AskParent
                    && x != checkpoint::Restoring::ClearStage
                    && x != checkpoint::Restoring::ClearOld
                    && x != checkpoint::Restoring::Failed,
            plan::doing(checkpoint::Restoring::ClearOld),
        );
    }
    assert(plan::does(p, replies, checkpoint::Restoring::CowCopy)
        ==> plan::gets(p, replies, checkpoint::Restoring::AskCow, Reply::Yes)) by {
        plan::lemma_way_in(
            p,
            replies,
            |x: checkpoint::Restoring| x == checkpoint::Restoring::CowCopy,
            plan::getting(checkpoint::Restoring::AskCow, Reply::Yes),
        );
    }
    assert(plan::does(p, replies, checkpoint::Restoring::MakeStage)
        ==> plan::gets(p, replies, checkpoint::Restoring::AskCow, Reply::No)) by {
        plan::lemma_way_in(
            p,
            replies,
            |x: checkpoint::Restoring|
                x == checkpoint::Restoring::MakeStage || x == checkpoint::Restoring::ClearUntar
                    || x == checkpoint::Restoring::MakeUntar
                    || x == checkpoint::Restoring::Unpack
                    || x == checkpoint::Restoring::CheckUnpacked
                    || x == checkpoint::Restoring::DropUntar
                    || x == checkpoint::Restoring::FindInner
                    || x == checkpoint::Restoring::PlaceInner
                    || x == checkpoint::Restoring::ClearUnpacked,
            plan::getting(checkpoint::Restoring::AskCow, Reply::No),
        );
    }
    assert(plan::does(p, replies, checkpoint::Restoring::ClearUntar)
        ==> plan::manages(p, replies, checkpoint::Restoring::MakeStage)) by {
        plan::lemma_way_in(
            p,
            replies,
            |x: checkpoint::Restoring|
                x == checkpoint::Restoring::ClearUntar || x == checkpoint::Restoring::MakeUntar
                    || x == checkpoint::Restoring::Unpack
                    || x == checkpoint::Restoring::CheckUnpacked
                    || x == checkpoint::Restoring::DropUntar
                    || x == checkpoint::Restoring::FindInner
                    || x == checkpoint::Restoring::PlaceInner
                    || x == checkpoint::Restoring::ClearUnpacked,
            plan::managing(checkpoint::Restoring::MakeStage),
        );
    }
    assert(plan::does(p, replies, checkpoint::Restoring::MakeUntar)
        ==> plan::does(p, replies, checkpoint::Restoring::ClearUntar)) by {
        plan::lemma_way_in(
            p,
            replies,
            |x: checkpoint::Restoring|
                x == checkpoint::Restoring::MakeUntar || x == checkpoint::Restoring::Unpack
                    || x == checkpoint::Restoring::CheckUnpacked
                    || x == checkpoint::Restoring::DropUntar
                    || x == checkpoint::Restoring::FindInner
                    || x == checkpoint::Restoring::PlaceInner
                    || x == checkpoint::Restoring::ClearUnpacked,
            plan::doing(checkpoint::Restoring::ClearUntar),
        );
    }
    assert(plan::does(p, replies, checkpoint::Restoring::Unpack)
        ==> plan::manages(p, replies, checkpoint::Restoring::MakeUntar)) by {
        plan::lemma_way_in(
            p,
            replies,
            |x: checkpoint::Restoring|
                x == checkpoint::Restoring::Unpack || x == checkpoint::Restoring::CheckUnpacked
                    || x == checkpoint::Restoring::DropUntar
                    || x == checkpoint::Restoring::FindInner
                    || x == checkpoint::Restoring::PlaceInner
                    || x == checkpoint::Restoring::ClearUnpacked,
            plan::managing(checkpoint::Restoring::MakeUntar),
        );
    }
    assert(plan::does(p, replies, checkpoint::Restoring::CheckUnpacked)
        ==> plan::manages(p, replies, checkpoint::Restoring::Unpack)) by {
        plan::lemma_way_in(
            p,
            replies,
            |x: checkpoint::Restoring|
                x == checkpoint::Restoring::CheckUnpacked
                    || x == checkpoint::Restoring::DropUntar
                    || x == checkpoint::Restoring::FindInner
                    || x == checkpoint::Restoring::PlaceInner
                    || x == checkpoint::Restoring::ClearUnpacked,
            plan::managing(checkpoint::Restoring::Unpack),
        );
    }
    assert(plan::does(p, replies, checkpoint::Restoring::DropUntar)
        ==> plan::gets(p, replies, checkpoint::Restoring::CheckUnpacked, Reply::Error)) by {
        plan::lemma_way_in(
            p,
            replies,
            |x: checkpoint::Restoring| x == checkpoint::Restoring::DropUntar,
            plan::getting(checkpoint::Restoring::CheckUnpacked, Reply::Error),
        );
    }
    assert(plan::does(p, replies, checkpoint::Restoring::FindInner)
        ==> plan::manages(p, replies, checkpoint::Restoring::CheckUnpacked)) by {
        plan::lemma_way_in(
            p,
            replies,
            |x: checkpoint::Restoring|
                x == checkpoint::Restoring::FindInner || x == checkpoint::Restoring::PlaceInner
                    || x == checkpoint::Restoring::ClearUnpacked,
            plan::managing(checkpoint::Restoring::CheckUnpacked),
        );
    }
    assert(plan::does(p, replies, checkpoint::Restoring::PlaceInner)
        ==> plan::manages(p, replies, checkpoint::Restoring::FindInner)) by {
        plan::lemma_way_in(
            p,
            replies,
            |x: checkpoint::Restoring|
                x == checkpoint::Restoring::PlaceInner
                    || x == checkpoint::Restoring::ClearUnpacked,
            plan::managing(checkpoint::Restoring::FindInner),
        );
    }
    assert(plan::does(p, replies, checkpoint::Restoring::ClearUnpacked)
        ==> plan::manages(p, replies, checkpoint::Restoring::PlaceInner)) by {
        plan::lemma_way_in(
            p,
            replies,
            |x: checkpoint::Restoring| x == checkpoint::Restoring::ClearUnpacked,
            plan::managing(checkpoint::Restoring::PlaceInner),
        );
    }
    assert(plan::does(p, replies, checkpoint::Restoring::Count)
        ==> plan::manages(p, replies, checkpoint::Restoring::CowCopy)
        || plan::does(p, replies, checkpoint::Restoring::ClearUnpacked)) by {
        plan::lemma_way_in(
            p,
            replies,
            |x: checkpoint::Restoring|
                x == checkpoint::Restoring::Count || x == checkpoint::Restoring::AskLive
                    || x == checkpoint::Restoring::SwapIn
                    || x == checkpoint::Restoring::MoveAside || x == checkpoint::Restoring::Swap
                    || x == checkpoint::Restoring::RollBack
                    || x == checkpoint::Restoring::DropOld
                    || x == checkpoint::Restoring::RemoveScratch
                    || x == checkpoint::Restoring::CopyScratch
                    || x == checkpoint::Restoring::Done,
            plan::either(plan::managing(checkpoint::Restoring::CowCopy), plan::doing(checkpoint::Restoring::ClearUnpacked)),
        );
        plan::lemma_either(
            p,
            replies,
            plan::managing(checkpoint::Restoring::CowCopy),
            plan::doing(checkpoint::Restoring::ClearUnpacked),
        );
    }
    assert(plan::does(p, replies, checkpoint::Restoring::AskLive)
        ==> plan::does(p, replies, checkpoint::Restoring::Count)) by {
        plan::lemma_way_in(
            p,
            replies,
            |x: checkpoint::Restoring|
                x == checkpoint::Restoring::AskLive || x == checkpoint::Restoring::SwapIn
                    || x == checkpoint::Restoring::MoveAside || x == checkpoint::Restoring::Swap
                    || x == checkpoint::Restoring::RollBack
                    || x == checkpoint::Restoring::DropOld
                    || x == checkpoint::Restoring::RemoveScratch
                    || x == checkpoint::Restoring::CopyScratch
                    || x == checkpoint::Restoring::Done,
            plan::doing(checkpoint::Restoring::Count),
        );
    }
    assert(plan::does(p, replies, checkpoint::Restoring::SwapIn)
        ==> plan::gets(p, replies, checkpoint::Restoring::AskLive, Reply::No)) by {
        plan::lemma_way_in(
            p,
            replies,
            |x: checkpoint::Restoring| x == checkpoint::Restoring::SwapIn,
            plan::getting(checkpoint::Restoring::AskLive, Reply::No),
        );
    }
    assert(plan::does(p, replies, checkpoint::Restoring::MoveAside)
        ==> plan::gets(p, replies, checkpoint::Restoring::AskLive, Reply::Yes)) by {
        plan::lemma_way_in(
            p,
            replies,
            |x: checkpoint::Restoring|
                x == checkpoint::Restoring::MoveAside || x == checkpoint::Restoring::Swap
                    || x == checkpoint::Restoring::RollBack
                    || x == checkpoint::Restoring::DropOld,
            plan::getting(checkpoint::Restoring::AskLive, Reply::Yes),
        );
    }
    assert(plan::does(p, replies, checkpoint::Restoring::Swap)
        ==> plan::manages(p, replies, checkpoint::Restoring::MoveAside)) by {
        plan::lemma_way_in(
            p,
            replies,
            |x: checkpoint::Restoring|
                x == checkpoint::Restoring::Swap || x == checkpoint::Restoring::RollBack
                    || x == checkpoint::Restoring::DropOld,
            plan::managing(checkpoint::Restoring::MoveAside),
        );
    }
    assert(plan::does(p, replies, checkpoint::Restoring::RollBack)
        ==> plan::gets(p, replies, checkpoint::Restoring::Swap, Reply::Error)) by {
        plan::lemma_way_in(
            p,
            replies,
            |x: checkpoint::Restoring| x == checkpoint::Restoring::RollBack,
            plan::getting(checkpoint::Restoring::Swap, Reply::Error),
        );
    }
    assert(plan::does(p, replies, checkpoint::Restoring::DropOld)
        ==> plan::manages(p, replies, checkpoint::Restoring::Swap)) by {
        plan::lemma_way_in(
            p,
            replies,
            |x: checkpoint::Restoring| x == checkpoint::Restoring::DropOld,
            plan::managing(checkpoint::Restoring::Swap),
        );
    }
    assert(plan::does(p, replies, checkpoint::Restoring::RemoveScratch)
        ==> plan::manages(p, replies, checkpoint::Restoring::SwapIn)
        || plan::does(p, replies, checkpoint::Restoring::DropOld)) by {
        plan::lemma_way_in(
            p,
            replies,
            |x: checkpoint::Restoring|
                x == checkpoint::Restoring::RemoveScratch
                    || x == checkpoint::Restoring::CopyScratch
                    || x == checkpoint::Restoring::Done,
            plan::either(plan::managing(checkpoint::Restoring::SwapIn), plan::doing(checkpoint::Restoring::DropOld)),
        );
        plan::lemma_either(
            p,
            replies,
            plan::managing(checkpoint::Restoring::SwapIn),
            plan::doing(checkpoint::Restoring::DropOld),
        );
    }
    assert(plan::does(p, replies, checkpoint::Restoring::CopyScratch)
        ==> plan::does(p, replies, checkpoint::Restoring::RemoveScratch)) by {
        plan::lemma_way_in(
            p,
            replies,
            |x: checkpoint::Restoring|
                x == checkpoint::Restoring::CopyScratch || x == checkpoint::Restoring::Done,
            plan::doing(checkpoint::Restoring::RemoveScratch),
        );
    }
    assert(end == checkpoint::Restoring::Done
        ==> plan::does(p, replies, checkpoint::Restoring::CopyScratch)) by {
        plan::lemma_way_in(
            p,
            replies,
            |x: checkpoint::Restoring| x == checkpoint::Restoring::Done,
            plan::doing(checkpoint::Restoring::CopyScratch),
        );
    }
    assert(end == checkpoint::Restoring::Done
        ==> plan::manages(p, replies, checkpoint::Restoring::AskDir)) by {
        plan::lemma_way_in(
            p,
            replies,
            |x: checkpoint::Restoring|
                x != checkpoint::Restoring::AskDir && x != checkpoint::Restoring::Failed,
            plan::managing(checkpoint::Restoring::AskDir),
        );
    }
    assert(end == checkpoint::Restoring::Done
        ==> plan::manages(p, replies, checkpoint::Restoring::ReadManifest)) by {
        plan::lemma_way_in(
            p,
            replies,
            |x: checkpoint::Restoring|
                x != checkpoint::Restoring::AskDir && x != checkpoint::Restoring::ReadManifest
                    && x != checkpoint::Restoring::Failed,
            plan::managing(checkpoint::Restoring::ReadManifest),
        );
    }
    assert(end == checkpoint::Restoring::Done
        ==> plan::manages(p, replies, checkpoint::Restoring::ParseManifest)) by {
        plan::lemma_way_in(
            p,
            replies,
            |x: checkpoint::Restoring|
                x != checkpoint::Restoring::AskDir && x != checkpoint::Restoring::ReadManifest
                    && x != checkpoint::Restoring::ParseManifest
                    && x != checkpoint::Restoring::Failed,
            plan::managing(checkpoint::Restoring::ParseManifest),
        );
    }
    assert(end == checkpoint::Restoring::Done
        ==> plan::manages(p, replies, checkpoint::Restoring::AskParent)) by {
        plan::lemma_way_in(
            p,
            replies,
            |x: checkpoint::Restoring|
                x != checkpoint::Restoring::AskDir && x != checkpoint::Restoring::ReadManifest
                    && x != checkpoint::Restoring::ParseManifest
                    && x != checkpoint::Restoring::AskParent
                    && x != checkpoint::Restoring::Failed,
            plan::managing(checkpoint::Restoring::AskParent),
        );
    }
    assert(end == checkpoint::Restoring::Done
        ==> plan::does(p, replies, checkpoint::Restoring::ClearStage)) by {
        plan::lemma_way_in(
            p,
            replies,
            |x: checkpoint::Restoring|
                x != checkpoint::Restoring::AskDir && x != checkpoint::Restoring::ReadManifest
                    && x != checkpoint::Restoring::ParseManifest
                    && x != checkpoint::Restoring::AskParent
                    && x != checkpoint::Restoring::ClearStage
                    && x != checkpoint::Restoring::Failed,
            plan::doing(checkpoint::Restoring::ClearStage),
        );
    }
    assert(end == checkpoint::Restoring::Done ==> plan::does(p, replies, checkpoint::Restoring::ClearOld)) by {
        plan::lemma_way_in(
            p,
            replies,
            |x: checkpoint::Restoring|
                x != checkpoint::Restoring::AskDir && x != checkpoint::Restoring::ReadManifest
                    && x != checkpoint::Restoring::ParseManifest
                    && x != checkpoint::Restoring::AskParent
                    && x != checkpoint::Restoring::ClearStage
                    && x != checkpoint::Restoring::ClearOld
                    && x != checkpoint::Restoring::Failed,
            plan::doing(checkpoint::Restoring::ClearOld),
        );
    }
    assert(end == checkpoint::Restoring::Done
        ==> plan::manages(p, replies, checkpoint::Restoring::AskCow)) by {
        plan::lemma_way_in(
            p,
            replies,
            |x: checkpoint::Restoring|
                x != checkpoint::Restoring::AskDir && x != checkpoint::Restoring::ReadManifest
                    && x != checkpoint::Restoring::ParseManifest
                    && x != checkpoint::Restoring::AskParent
                    && x != checkpoint::Restoring::ClearStage
                    && x != checkpoint::Restoring::ClearOld
                    && x != checkpoint::Restoring::AskCow && x != checkpoint::Restoring::Failed,
            plan::managing(checkpoint::Restoring::AskCow),
        );
    }
    assert(end == checkpoint::Restoring::Done ==> plan::does(p, replies, checkpoint::Restoring::Count)) by {
        plan::lemma_way_in(
            p,
            replies,
            |x: checkpoint::Restoring|
                x == checkpoint::Restoring::AskLive || x == checkpoint::Restoring::SwapIn
                    || x == checkpoint::Restoring::MoveAside || x == checkpoint::Restoring::Swap
                    || x == checkpoint::Restoring::RollBack
                    || x == checkpoint::Restoring::DropOld
                    || x == checkpoint::Restoring::RemoveScratch
                    || x == checkpoint::Restoring::CopyScratch
                    || x == checkpoint::Restoring::Done,
            plan::doing(checkpoint::Restoring::Count),
        );
    }
    assert(end == checkpoint::Restoring::Done
        ==> plan::manages(p, replies, checkpoint::Restoring::AskLive)) by {
        plan::lemma_way_in(
            p,
            replies,
            |x: checkpoint::Restoring|
                x == checkpoint::Restoring::SwapIn || x == checkpoint::Restoring::MoveAside
                    || x == checkpoint::Restoring::Swap || x == checkpoint::Restoring::RollBack
                    || x == checkpoint::Restoring::DropOld
                    || x == checkpoint::Restoring::RemoveScratch
                    || x == checkpoint::Restoring::CopyScratch
                    || x == checkpoint::Restoring::Done,
            plan::managing(checkpoint::Restoring::AskLive),
        );
    }
    assert(end == checkpoint::Restoring::Done
        ==> plan::does(p, replies, checkpoint::Restoring::RemoveScratch)) by {
        plan::lemma_way_in(
            p,
            replies,
            |x: checkpoint::Restoring|
                x == checkpoint::Restoring::CopyScratch || x == checkpoint::Restoring::Done,
            plan::doing(checkpoint::Restoring::RemoveScratch),
        );
    }
    assert(end == checkpoint::Restoring::Failed
        ==> plan::gets(p, replies, checkpoint::Restoring::AskDir, Reply::Error)
        || plan::gets(p, replies, checkpoint::Restoring::ReadManifest, Reply::Error)
        || plan::gets(p, replies, checkpoint::Restoring::ParseManifest, Reply::Error)
        || plan::gets(p, replies, checkpoint::Restoring::AskParent, Reply::Error)
        || plan::gets(p, replies, checkpoint::Restoring::AskCow, Reply::Error)
        || plan::gets(p, replies, checkpoint::Restoring::CowCopy, Reply::Error)
        || plan::gets(p, replies, checkpoint::Restoring::MakeStage, Reply::Error)
        || plan::gets(p, replies, checkpoint::Restoring::MakeUntar, Reply::Error)
        || plan::gets(p, replies, checkpoint::Restoring::Unpack, Reply::Error)
        || plan::does(p, replies, checkpoint::Restoring::DropUntar)
        || plan::gets(p, replies, checkpoint::Restoring::FindInner, Reply::Error)
        || plan::gets(p, replies, checkpoint::Restoring::PlaceInner, Reply::Error)
        || plan::gets(p, replies, checkpoint::Restoring::AskLive, Reply::Error)
        || plan::gets(p, replies, checkpoint::Restoring::SwapIn, Reply::Error)
        || plan::gets(p, replies, checkpoint::Restoring::MoveAside, Reply::Error)
        || plan::does(p, replies, checkpoint::Restoring::RollBack)) by {
        plan::lemma_way_in(
            p,
            replies,
            |x: checkpoint::Restoring| x == checkpoint::Restoring::Failed,
            plan::either(plan::getting(checkpoint::Restoring::AskDir, Reply::Error), plan::either(plan::getting(checkpoint::Restoring::ReadManifest, Reply::Error), plan::either(plan::getting(checkpoint::Restoring::ParseManifest, Reply::Error), plan::either(plan::getting(checkpoint::Restoring::AskParent, Reply::Error), plan::either(plan::getting(checkpoint::Restoring::AskCow, Reply::Error), plan::either(plan::getting(checkpoint::Restoring::CowCopy, Reply::Error), plan::either(plan::getting(checkpoint::Restoring::MakeStage, Reply::Error), plan::either(plan::getting(checkpoint::Restoring::MakeUntar, Reply::Error), plan::either(plan::getting(checkpoint::Restoring::Unpack, Reply::Error), plan::either(plan::doing(checkpoint::Restoring::DropUntar), plan::either(plan::getting(checkpoint::Restoring::FindInner, Reply::Error), plan::either(plan::getting(checkpoint::Restoring::PlaceInner, Reply::Error), plan::either(plan::getting(checkpoint::Restoring::AskLive, Reply::Error), plan::either(plan::getting(checkpoint::Restoring::SwapIn, Reply::Error), plan::either(plan::getting(checkpoint::Restoring::MoveAside, Reply::Error), plan::doing(checkpoint::Restoring::RollBack)))))))))))))))),
        );
        plan::lemma_either(
            p,
            replies,
            plan::getting(checkpoint::Restoring::AskDir, Reply::Error),
            plan::either(plan::getting(checkpoint::Restoring::ReadManifest, Reply::Error), plan::either(plan::getting(checkpoint::Restoring::ParseManifest, Reply::Error), plan::either(plan::getting(checkpoint::Restoring::AskParent, Reply::Error), plan::either(plan::getting(checkpoint::Restoring::AskCow, Reply::Error), plan::either(plan::getting(checkpoint::Restoring::CowCopy, Reply::Error), plan::either(plan::getting(checkpoint::Restoring::MakeStage, Reply::Error), plan::either(plan::getting(checkpoint::Restoring::MakeUntar, Reply::Error), plan::either(plan::getting(checkpoint::Restoring::Unpack, Reply::Error), plan::either(plan::doing(checkpoint::Restoring::DropUntar), plan::either(plan::getting(checkpoint::Restoring::FindInner, Reply::Error), plan::either(plan::getting(checkpoint::Restoring::PlaceInner, Reply::Error), plan::either(plan::getting(checkpoint::Restoring::AskLive, Reply::Error), plan::either(plan::getting(checkpoint::Restoring::SwapIn, Reply::Error), plan::either(plan::getting(checkpoint::Restoring::MoveAside, Reply::Error), plan::doing(checkpoint::Restoring::RollBack))))))))))))))),
        );
        plan::lemma_either(
            p,
            replies,
            plan::getting(checkpoint::Restoring::ReadManifest, Reply::Error),
            plan::either(plan::getting(checkpoint::Restoring::ParseManifest, Reply::Error), plan::either(plan::getting(checkpoint::Restoring::AskParent, Reply::Error), plan::either(plan::getting(checkpoint::Restoring::AskCow, Reply::Error), plan::either(plan::getting(checkpoint::Restoring::CowCopy, Reply::Error), plan::either(plan::getting(checkpoint::Restoring::MakeStage, Reply::Error), plan::either(plan::getting(checkpoint::Restoring::MakeUntar, Reply::Error), plan::either(plan::getting(checkpoint::Restoring::Unpack, Reply::Error), plan::either(plan::doing(checkpoint::Restoring::DropUntar), plan::either(plan::getting(checkpoint::Restoring::FindInner, Reply::Error), plan::either(plan::getting(checkpoint::Restoring::PlaceInner, Reply::Error), plan::either(plan::getting(checkpoint::Restoring::AskLive, Reply::Error), plan::either(plan::getting(checkpoint::Restoring::SwapIn, Reply::Error), plan::either(plan::getting(checkpoint::Restoring::MoveAside, Reply::Error), plan::doing(checkpoint::Restoring::RollBack)))))))))))))),
        );
        plan::lemma_either(
            p,
            replies,
            plan::getting(checkpoint::Restoring::ParseManifest, Reply::Error),
            plan::either(plan::getting(checkpoint::Restoring::AskParent, Reply::Error), plan::either(plan::getting(checkpoint::Restoring::AskCow, Reply::Error), plan::either(plan::getting(checkpoint::Restoring::CowCopy, Reply::Error), plan::either(plan::getting(checkpoint::Restoring::MakeStage, Reply::Error), plan::either(plan::getting(checkpoint::Restoring::MakeUntar, Reply::Error), plan::either(plan::getting(checkpoint::Restoring::Unpack, Reply::Error), plan::either(plan::doing(checkpoint::Restoring::DropUntar), plan::either(plan::getting(checkpoint::Restoring::FindInner, Reply::Error), plan::either(plan::getting(checkpoint::Restoring::PlaceInner, Reply::Error), plan::either(plan::getting(checkpoint::Restoring::AskLive, Reply::Error), plan::either(plan::getting(checkpoint::Restoring::SwapIn, Reply::Error), plan::either(plan::getting(checkpoint::Restoring::MoveAside, Reply::Error), plan::doing(checkpoint::Restoring::RollBack))))))))))))),
        );
        plan::lemma_either(
            p,
            replies,
            plan::getting(checkpoint::Restoring::AskParent, Reply::Error),
            plan::either(plan::getting(checkpoint::Restoring::AskCow, Reply::Error), plan::either(plan::getting(checkpoint::Restoring::CowCopy, Reply::Error), plan::either(plan::getting(checkpoint::Restoring::MakeStage, Reply::Error), plan::either(plan::getting(checkpoint::Restoring::MakeUntar, Reply::Error), plan::either(plan::getting(checkpoint::Restoring::Unpack, Reply::Error), plan::either(plan::doing(checkpoint::Restoring::DropUntar), plan::either(plan::getting(checkpoint::Restoring::FindInner, Reply::Error), plan::either(plan::getting(checkpoint::Restoring::PlaceInner, Reply::Error), plan::either(plan::getting(checkpoint::Restoring::AskLive, Reply::Error), plan::either(plan::getting(checkpoint::Restoring::SwapIn, Reply::Error), plan::either(plan::getting(checkpoint::Restoring::MoveAside, Reply::Error), plan::doing(checkpoint::Restoring::RollBack)))))))))))),
        );
        plan::lemma_either(
            p,
            replies,
            plan::getting(checkpoint::Restoring::AskCow, Reply::Error),
            plan::either(plan::getting(checkpoint::Restoring::CowCopy, Reply::Error), plan::either(plan::getting(checkpoint::Restoring::MakeStage, Reply::Error), plan::either(plan::getting(checkpoint::Restoring::MakeUntar, Reply::Error), plan::either(plan::getting(checkpoint::Restoring::Unpack, Reply::Error), plan::either(plan::doing(checkpoint::Restoring::DropUntar), plan::either(plan::getting(checkpoint::Restoring::FindInner, Reply::Error), plan::either(plan::getting(checkpoint::Restoring::PlaceInner, Reply::Error), plan::either(plan::getting(checkpoint::Restoring::AskLive, Reply::Error), plan::either(plan::getting(checkpoint::Restoring::SwapIn, Reply::Error), plan::either(plan::getting(checkpoint::Restoring::MoveAside, Reply::Error), plan::doing(checkpoint::Restoring::RollBack))))))))))),
        );
        plan::lemma_either(
            p,
            replies,
            plan::getting(checkpoint::Restoring::CowCopy, Reply::Error),
            plan::either(plan::getting(checkpoint::Restoring::MakeStage, Reply::Error), plan::either(plan::getting(checkpoint::Restoring::MakeUntar, Reply::Error), plan::either(plan::getting(checkpoint::Restoring::Unpack, Reply::Error), plan::either(plan::doing(checkpoint::Restoring::DropUntar), plan::either(plan::getting(checkpoint::Restoring::FindInner, Reply::Error), plan::either(plan::getting(checkpoint::Restoring::PlaceInner, Reply::Error), plan::either(plan::getting(checkpoint::Restoring::AskLive, Reply::Error), plan::either(plan::getting(checkpoint::Restoring::SwapIn, Reply::Error), plan::either(plan::getting(checkpoint::Restoring::MoveAside, Reply::Error), plan::doing(checkpoint::Restoring::RollBack)))))))))),
        );
        plan::lemma_either(
            p,
            replies,
            plan::getting(checkpoint::Restoring::MakeStage, Reply::Error),
            plan::either(plan::getting(checkpoint::Restoring::MakeUntar, Reply::Error), plan::either(plan::getting(checkpoint::Restoring::Unpack, Reply::Error), plan::either(plan::doing(checkpoint::Restoring::DropUntar), plan::either(plan::getting(checkpoint::Restoring::FindInner, Reply::Error), plan::either(plan::getting(checkpoint::Restoring::PlaceInner, Reply::Error), plan::either(plan::getting(checkpoint::Restoring::AskLive, Reply::Error), plan::either(plan::getting(checkpoint::Restoring::SwapIn, Reply::Error), plan::either(plan::getting(checkpoint::Restoring::MoveAside, Reply::Error), plan::doing(checkpoint::Restoring::RollBack))))))))),
        );
        plan::lemma_either(
            p,
            replies,
            plan::getting(checkpoint::Restoring::MakeUntar, Reply::Error),
            plan::either(plan::getting(checkpoint::Restoring::Unpack, Reply::Error), plan::either(plan::doing(checkpoint::Restoring::DropUntar), plan::either(plan::getting(checkpoint::Restoring::FindInner, Reply::Error), plan::either(plan::getting(checkpoint::Restoring::PlaceInner, Reply::Error), plan::either(plan::getting(checkpoint::Restoring::AskLive, Reply::Error), plan::either(plan::getting(checkpoint::Restoring::SwapIn, Reply::Error), plan::either(plan::getting(checkpoint::Restoring::MoveAside, Reply::Error), plan::doing(checkpoint::Restoring::RollBack)))))))),
        );
        plan::lemma_either(
            p,
            replies,
            plan::getting(checkpoint::Restoring::Unpack, Reply::Error),
            plan::either(plan::doing(checkpoint::Restoring::DropUntar), plan::either(plan::getting(checkpoint::Restoring::FindInner, Reply::Error), plan::either(plan::getting(checkpoint::Restoring::PlaceInner, Reply::Error), plan::either(plan::getting(checkpoint::Restoring::AskLive, Reply::Error), plan::either(plan::getting(checkpoint::Restoring::SwapIn, Reply::Error), plan::either(plan::getting(checkpoint::Restoring::MoveAside, Reply::Error), plan::doing(checkpoint::Restoring::RollBack))))))),
        );
        plan::lemma_either(
            p,
            replies,
            plan::doing(checkpoint::Restoring::DropUntar),
            plan::either(plan::getting(checkpoint::Restoring::FindInner, Reply::Error), plan::either(plan::getting(checkpoint::Restoring::PlaceInner, Reply::Error), plan::either(plan::getting(checkpoint::Restoring::AskLive, Reply::Error), plan::either(plan::getting(checkpoint::Restoring::SwapIn, Reply::Error), plan::either(plan::getting(checkpoint::Restoring::MoveAside, Reply::Error), plan::doing(checkpoint::Restoring::RollBack)))))),
        );
        plan::lemma_either(
            p,
            replies,
            plan::getting(checkpoint::Restoring::FindInner, Reply::Error),
            plan::either(plan::getting(checkpoint::Restoring::PlaceInner, Reply::Error), plan::either(plan::getting(checkpoint::Restoring::AskLive, Reply::Error), plan::either(plan::getting(checkpoint::Restoring::SwapIn, Reply::Error), plan::either(plan::getting(checkpoint::Restoring::MoveAside, Reply::Error), plan::doing(checkpoint::Restoring::RollBack))))),
        );
        plan::lemma_either(
            p,
            replies,
            plan::getting(checkpoint::Restoring::PlaceInner, Reply::Error),
            plan::either(plan::getting(checkpoint::Restoring::AskLive, Reply::Error), plan::either(plan::getting(checkpoint::Restoring::SwapIn, Reply::Error), plan::either(plan::getting(checkpoint::Restoring::MoveAside, Reply::Error), plan::doing(checkpoint::Restoring::RollBack)))),
        );
        plan::lemma_either(
            p,
            replies,
            plan::getting(checkpoint::Restoring::AskLive, Reply::Error),
            plan::either(plan::getting(checkpoint::Restoring::SwapIn, Reply::Error), plan::either(plan::getting(checkpoint::Restoring::MoveAside, Reply::Error), plan::doing(checkpoint::Restoring::RollBack))),
        );
        plan::lemma_either(
            p,
            replies,
            plan::getting(checkpoint::Restoring::SwapIn, Reply::Error),
            plan::either(plan::getting(checkpoint::Restoring::MoveAside, Reply::Error), plan::doing(checkpoint::Restoring::RollBack)),
        );
        plan::lemma_either(
            p,
            replies,
            plan::getting(checkpoint::Restoring::MoveAside, Reply::Error),
            plan::doing(checkpoint::Restoring::RollBack),
        );
    }
}

/// A workspace is removed once no process and no mount is in the way, and it is
/// looked for afterwards. A phase is done only after the ones it needs, and the work
/// is done only where all of them were.
pub proof fn law_reset_order(replies: Seq<Reply>)
    ensures
        ({
            let p = reset::Reset::KillInside;
            let end = plan::reached(p, replies);
            &&& !reset::Reset::Done.doomed()
            &&& reset::Reset::Failed.doomed()
            &&& plan::does(p, replies, reset::Reset::Unmount)
                ==> plan::does(p, replies, reset::Reset::KillInside)
            &&& plan::does(p, replies, reset::Reset::Count)
                ==> plan::manages(p, replies, reset::Reset::Unmount)
            &&& plan::does(p, replies, reset::Reset::Remove)
                ==> plan::does(p, replies, reset::Reset::Count)
            &&& plan::does(p, replies, reset::Reset::AskGone)
                ==> plan::manages(p, replies, reset::Reset::Remove)
            &&& end == reset::Reset::Done ==> plan::manages(p, replies, reset::Reset::AskGone)
            &&& end == reset::Reset::Done ==> plan::does(p, replies, reset::Reset::KillInside)
            &&& end == reset::Reset::Done ==> plan::manages(p, replies, reset::Reset::Unmount)
            &&& end == reset::Reset::Done ==> plan::does(p, replies, reset::Reset::Count)
            &&& end == reset::Reset::Done ==> plan::manages(p, replies, reset::Reset::Remove)
        }),
{
    let p = reset::Reset::KillInside;
    let end = plan::reached(p, replies);
    assert(plan::does(p, replies, reset::Reset::Unmount)
        ==> plan::does(p, replies, reset::Reset::KillInside)) by {
        plan::lemma_way_in(
            p,
            replies,
            |x: reset::Reset| x != reset::Reset::KillInside,
            plan::doing(reset::Reset::KillInside),
        );
    }
    assert(plan::does(p, replies, reset::Reset::Count)
        ==> plan::manages(p, replies, reset::Reset::Unmount)) by {
        plan::lemma_way_in(
            p,
            replies,
            |x: reset::Reset|
                x != reset::Reset::KillInside && x != reset::Reset::Unmount
                    && x != reset::Reset::Failed,
            plan::managing(reset::Reset::Unmount),
        );
    }
    assert(plan::does(p, replies, reset::Reset::Remove) ==> plan::does(p, replies, reset::Reset::Count)) by {
        plan::lemma_way_in(
            p,
            replies,
            |x: reset::Reset|
                x == reset::Reset::Remove || x == reset::Reset::AskGone
                    || x == reset::Reset::Done,
            plan::doing(reset::Reset::Count),
        );
    }
    assert(plan::does(p, replies, reset::Reset::AskGone)
        ==> plan::manages(p, replies, reset::Reset::Remove)) by {
        plan::lemma_way_in(
            p,
            replies,
            |x: reset::Reset| x == reset::Reset::AskGone || x == reset::Reset::Done,
            plan::managing(reset::Reset::Remove),
        );
    }
    assert(end == reset::Reset::Done ==> plan::manages(p, replies, reset::Reset::AskGone)) by {
        plan::lemma_way_in(
            p,
            replies,
            |x: reset::Reset| x == reset::Reset::Done,
            plan::managing(reset::Reset::AskGone),
        );
    }
    assert(end == reset::Reset::Done ==> plan::does(p, replies, reset::Reset::KillInside)) by {
        plan::lemma_way_in(
            p,
            replies,
            |x: reset::Reset| x != reset::Reset::KillInside,
            plan::doing(reset::Reset::KillInside),
        );
    }
    assert(end == reset::Reset::Done ==> plan::manages(p, replies, reset::Reset::Unmount)) by {
        plan::lemma_way_in(
            p,
            replies,
            |x: reset::Reset|
                x != reset::Reset::KillInside && x != reset::Reset::Unmount
                    && x != reset::Reset::Failed,
            plan::managing(reset::Reset::Unmount),
        );
    }
    assert(end == reset::Reset::Done ==> plan::does(p, replies, reset::Reset::Count)) by {
        plan::lemma_way_in(
            p,
            replies,
            |x: reset::Reset|
                x == reset::Reset::Remove || x == reset::Reset::AskGone
                    || x == reset::Reset::Done,
            plan::doing(reset::Reset::Count),
        );
    }
    assert(end == reset::Reset::Done ==> plan::manages(p, replies, reset::Reset::Remove)) by {
        plan::lemma_way_in(
            p,
            replies,
            |x: reset::Reset| x == reset::Reset::AskGone || x == reset::Reset::Done,
            plan::managing(reset::Reset::Remove),
        );
    }
}

/// The steps that make the work fail: the failure of any other phase is lived with.
pub open spec fn checkpoint_faults() -> spec_fn(checkpoint::Checkpointing, Reply) -> bool {
    |x: checkpoint::Checkpointing, r: Reply|
        r == Reply::Error && (x == checkpoint::Checkpointing::MakeRoot
            || x == checkpoint::Checkpointing::CheckQuota
            || x == checkpoint::Checkpointing::MakeStaging
            || x == checkpoint::Checkpointing::AskWorkspace
            || x == checkpoint::Checkpointing::MakeEmpty
            || x == checkpoint::Checkpointing::TarCreate
            || x == checkpoint::Checkpointing::MakeTmp
            || x == checkpoint::Checkpointing::CopyFiles
            || x == checkpoint::Checkpointing::WriteManifest
            || x == checkpoint::Checkpointing::Publish)
}

/// The work fails in a run that takes one of these steps, and in no other.
pub proof fn law_checkpoint_failures(replies: Seq<Reply>)
    ensures
        plan::reached(checkpoint::Checkpointing::MakeRoot, replies).doomed() <==> plan::went(
            checkpoint::Checkpointing::MakeRoot,
            replies,
            checkpoint_faults(),
        ),
{
    let p = checkpoint::Checkpointing::MakeRoot;
    plan::lemma_way_in(
        p,
        replies,
        |x: checkpoint::Checkpointing| x == checkpoint::Checkpointing::Failed,
        checkpoint_faults(),
    );
    plan::lemma_stays(
        p,
        replies,
        checkpoint_faults(),
        |x: checkpoint::Checkpointing| x == checkpoint::Checkpointing::Failed,
    );
}

/// The steps that make the work fail: the failure of any other phase is lived with.
pub open spec fn restore_faults() -> spec_fn(checkpoint::Restoring, Reply) -> bool {
    |x: checkpoint::Restoring, r: Reply|
        r == Reply::Error && (x == checkpoint::Restoring::AskDir
            || x == checkpoint::Restoring::ReadManifest
            || x == checkpoint::Restoring::ParseManifest
            || x == checkpoint::Restoring::AskParent || x == checkpoint::Restoring::AskCow
            || x == checkpoint::Restoring::CowCopy || x == checkpoint::Restoring::MakeStage
            || x == checkpoint::Restoring::MakeUntar || x == checkpoint::Restoring::Unpack
            || x == checkpoint::Restoring::CheckUnpacked
            || x == checkpoint::Restoring::FindInner || x == checkpoint::Restoring::PlaceInner
            || x == checkpoint::Restoring::AskLive || x == checkpoint::Restoring::SwapIn
            || x == checkpoint::Restoring::MoveAside || x == checkpoint::Restoring::Swap)
}

/// The work fails in a run that takes one of these steps, and in no other.
pub proof fn law_restore_failures(replies: Seq<Reply>)
    ensures
        plan::reached(checkpoint::Restoring::AskDir, replies).doomed() <==> plan::went(
            checkpoint::Restoring::AskDir,
            replies,
            restore_faults(),
        ),
{
    let p = checkpoint::Restoring::AskDir;
    plan::lemma_way_in(
        p,
        replies,
        |x: checkpoint::Restoring|
                x == checkpoint::Restoring::DropUntar || x == checkpoint::Restoring::RollBack
                    || x == checkpoint::Restoring::Failed,
        restore_faults(),
    );
    plan::lemma_stays(
        p,
        replies,
        restore_faults(),
        |x: checkpoint::Restoring|
                x == checkpoint::Restoring::DropUntar || x == checkpoint::Restoring::RollBack
                    || x == checkpoint::Restoring::Failed,
    );
}

/// The steps that make the work fail: the failure of any other phase is lived with.
pub open spec fn reset_faults() -> spec_fn(reset::Reset, Reply) -> bool {
    |x: reset::Reset, r: Reply|
        r == Reply::Error && (x == reset::Reset::Unmount || x == reset::Reset::Remove
            || x == reset::Reset::AskGone)
}

/// The work fails in a run that takes one of these steps, and in no other.
pub proof fn law_reset_failures(replies: Seq<Reply>)
    ensures
        plan::reached(reset::Reset::KillInside, replies).doomed() <==> plan::went(
            reset::Reset::KillInside,
            replies,
            reset_faults(),
        ),
{
    let p = reset::Reset::KillInside;
    plan::lemma_way_in(p, replies, |x: reset::Reset| x == reset::Reset::Failed, reset_faults());
    plan::lemma_stays(p, replies, reset_faults(), |x: reset::Reset| x == reset::Reset::Failed);
}

} // verus!
