//! The order of work on ZFS pools and on the disks in them, in every run.
use crate::plan;
use crate::plan::{Plan, Reply};
use crate::zfs::storage;
use vstd::prelude::*;

verus! {

/// A pool is there before its datasets, and these before those below them. A phase is
/// done only after the ones it needs, and the work is done only where all of them
/// were.
pub proof fn law_init_order(replies: Seq<Reply>)
    ensures
        ({
            let p = storage::Init::AskPool;
            let end = plan::reached(p, replies);
            &&& !storage::Init::Done.doomed()
            &&& storage::Init::Failed.doomed()
            &&& plan::does(p, replies, storage::Init::QueryPool)
                ==> plan::gets(p, replies, storage::Init::AskPool, Reply::Yes)
            &&& plan::does(p, replies, storage::Init::RequireDevice)
                ==> plan::gets(p, replies, storage::Init::AskPool, Reply::No)
            &&& plan::does(p, replies, storage::Init::CreatePool)
                ==> plan::manages(p, replies, storage::Init::RequireDevice)
            &&& plan::does(p, replies, storage::Init::AskBase)
                ==> plan::manages(p, replies, storage::Init::QueryPool)
                || plan::manages(p, replies, storage::Init::CreatePool)
            &&& plan::does(p, replies, storage::Init::CreateBase)
                ==> plan::gets(p, replies, storage::Init::AskBase, Reply::No)
            &&& plan::does(p, replies, storage::Init::AskImages)
                ==> plan::gets(p, replies, storage::Init::AskBase, Reply::Yes)
                || plan::manages(p, replies, storage::Init::CreateBase)
            &&& plan::does(p, replies, storage::Init::CreateImages)
                ==> plan::gets(p, replies, storage::Init::AskImages, Reply::No)
            &&& plan::does(p, replies, storage::Init::AskVms)
                ==> plan::gets(p, replies, storage::Init::AskImages, Reply::Yes)
                || plan::manages(p, replies, storage::Init::CreateImages)
            &&& plan::does(p, replies, storage::Init::CreateVms)
                ==> plan::gets(p, replies, storage::Init::AskVms, Reply::No)
            &&& end == storage::Init::Done
                ==> plan::gets(p, replies, storage::Init::AskVms, Reply::Yes)
                || plan::manages(p, replies, storage::Init::CreateVms)
            &&& end == storage::Init::Done ==> plan::manages(p, replies, storage::Init::AskPool)
            &&& end == storage::Init::Done ==> plan::manages(p, replies, storage::Init::AskBase)
            &&& end == storage::Init::Done ==> plan::manages(p, replies, storage::Init::AskImages)
            &&& end == storage::Init::Done ==> plan::manages(p, replies, storage::Init::AskVms)
        }),
{
    let p = storage::Init::AskPool;
    let end = plan::reached(p, replies);
    assert(plan::does(p, replies, storage::Init::QueryPool)
        ==> plan::gets(p, replies, storage::Init::AskPool, Reply::Yes)) by {
        plan::lemma_way_in(
            p,
            replies,
            |x: storage::Init| x == storage::Init::QueryPool,
            plan::getting(storage::Init::AskPool, Reply::Yes),
        );
    }
    assert(plan::does(p, replies, storage::Init::RequireDevice)
        ==> plan::gets(p, replies, storage::Init::AskPool, Reply::No)) by {
        plan::lemma_way_in(
            p,
            replies,
            |x: storage::Init|
                x == storage::Init::RequireDevice || x == storage::Init::CreatePool,
            plan::getting(storage::Init::AskPool, Reply::No),
        );
    }
    assert(plan::does(p, replies, storage::Init::CreatePool)
        ==> plan::manages(p, replies, storage::Init::RequireDevice)) by {
        plan::lemma_way_in(
            p,
            replies,
            |x: storage::Init| x == storage::Init::CreatePool,
            plan::managing(storage::Init::RequireDevice),
        );
    }
    assert(plan::does(p, replies, storage::Init::AskBase)
        ==> plan::manages(p, replies, storage::Init::QueryPool)
        || plan::manages(p, replies, storage::Init::CreatePool)) by {
        plan::lemma_way_in(
            p,
            replies,
            |x: storage::Init|
                x != storage::Init::AskPool && x != storage::Init::QueryPool
                    && x != storage::Init::RequireDevice && x != storage::Init::CreatePool
                    && x != storage::Init::Failed,
            plan::either(plan::managing(storage::Init::QueryPool), plan::managing(storage::Init::CreatePool)),
        );
        plan::lemma_either(
            p,
            replies,
            plan::managing(storage::Init::QueryPool),
            plan::managing(storage::Init::CreatePool),
        );
    }
    assert(plan::does(p, replies, storage::Init::CreateBase)
        ==> plan::gets(p, replies, storage::Init::AskBase, Reply::No)) by {
        plan::lemma_way_in(
            p,
            replies,
            |x: storage::Init| x == storage::Init::CreateBase,
            plan::getting(storage::Init::AskBase, Reply::No),
        );
    }
    assert(plan::does(p, replies, storage::Init::AskImages)
        ==> plan::gets(p, replies, storage::Init::AskBase, Reply::Yes)
        || plan::manages(p, replies, storage::Init::CreateBase)) by {
        plan::lemma_way_in(
            p,
            replies,
            |x: storage::Init|
                x == storage::Init::AskImages || x == storage::Init::CreateImages
                    || x == storage::Init::AskVms || x == storage::Init::CreateVms
                    || x == storage::Init::Done,
            plan::either(plan::getting(storage::Init::AskBase, Reply::Yes), plan::managing(storage::Init::CreateBase)),
        );
        plan::lemma_either(
            p,
            replies,
            plan::getting(storage::Init::AskBase, Reply::Yes),
            plan::managing(storage::Init::CreateBase),
        );
    }
    assert(plan::does(p, replies, storage::Init::CreateImages)
        ==> plan::gets(p, replies, storage::Init::AskImages, Reply::No)) by {
        plan::lemma_way_in(
            p,
            replies,
            |x: storage::Init| x == storage::Init::CreateImages,
            plan::getting(storage::Init::AskImages, Reply::No),
        );
    }
    assert(plan::does(p, replies, storage::Init::AskVms)
        ==> plan::gets(p, replies, storage::Init::AskImages, Reply::Yes)
        || plan::manages(p, replies, storage::Init::CreateImages)) by {
        plan::lemma_way_in(
            p,
            replies,
            |x: storage::Init|
                x == storage::Init::AskVms || x == storage::Init::CreateVms
                    || x == storage::Init::Done,
            plan::either(plan::getting(storage::Init::AskImages, Reply::Yes), plan::managing(storage::Init::CreateImages)),
        );
        plan::lemma_either(
            p,
            replies,
            plan::getting(storage::Init::AskImages, Reply::Yes),
            plan::managing(storage::Init::CreateImages),
        );
    }
    assert(plan::does(p, replies, storage::Init::CreateVms)
        ==> plan::gets(p, replies, storage::Init::AskVms, Reply::No)) by {
        plan::lemma_way_in(
            p,
            replies,
            |x: storage::Init| x == storage::Init::CreateVms,
            plan::getting(storage::Init::AskVms, Reply::No),
        );
    }
    assert(end == storage::Init::Done
        ==> plan::gets(p, replies, storage::Init::AskVms, Reply::Yes)
        || plan::manages(p, replies, storage::Init::CreateVms)) by {
        plan::lemma_way_in(
            p,
            replies,
            |x: storage::Init| x == storage::Init::Done,
            plan::either(plan::getting(storage::Init::AskVms, Reply::Yes), plan::managing(storage::Init::CreateVms)),
        );
        plan::lemma_either(
            p,
            replies,
            plan::getting(storage::Init::AskVms, Reply::Yes),
            plan::managing(storage::Init::CreateVms),
        );
    }
    assert(end == storage::Init::Done ==> plan::manages(p, replies, storage::Init::AskPool)) by {
        plan::lemma_way_in(
            p,
            replies,
            |x: storage::Init| x != storage::Init::AskPool && x != storage::Init::Failed,
            plan::managing(storage::Init::AskPool),
        );
    }
    assert(end == storage::Init::Done ==> plan::manages(p, replies, storage::Init::AskBase)) by {
        plan::lemma_way_in(
            p,
            replies,
            |x: storage::Init|
                x == storage::Init::CreateBase || x == storage::Init::AskImages
                    || x == storage::Init::CreateImages || x == storage::Init::AskVms
                    || x == storage::Init::CreateVms || x == storage::Init::Done,
            plan::managing(storage::Init::AskBase),
        );
    }
    assert(end == storage::Init::Done ==> plan::manages(p, replies, storage::Init::AskImages)) by {
        plan::lemma_way_in(
            p,
            replies,
            |x: storage::Init|
                x == storage::Init::CreateImages || x == storage::Init::AskVms
                    || x == storage::Init::CreateVms || x == storage::Init::Done,
            plan::managing(storage::Init::AskImages),
        );
    }
    assert(end == storage::Init::Done ==> plan::manages(p, replies, storage::Init::AskVms)) by {
        plan::lemma_way_in(
            p,
            replies,
            |x: storage::Init| x == storage::Init::CreateVms || x == storage::Init::Done,
            plan::managing(storage::Init::AskVms),
        );
    }
}

/// An image is written to a volume that was made for it. A phase is done only after
/// the ones it needs, and the work is done only where all of them were.
pub proof fn law_image_order(replies: Seq<Reply>)
    ensures
        ({
            let p = storage::ImageVolume::Create;
            let end = plan::reached(p, replies);
            &&& !storage::ImageVolume::Done.doomed()
            &&& storage::ImageVolume::Failed.doomed()
            &&& plan::does(p, replies, storage::ImageVolume::Write)
                ==> plan::manages(p, replies, storage::ImageVolume::Create)
            &&& plan::does(p, replies, storage::ImageVolume::Destroy)
                ==> plan::gets(p, replies, storage::ImageVolume::Write, Reply::Error)
            &&& end == storage::ImageVolume::Done
                ==> plan::manages(p, replies, storage::ImageVolume::Write)
            &&& end == storage::ImageVolume::Done
                ==> plan::manages(p, replies, storage::ImageVolume::Create)
            &&& end == storage::ImageVolume::Failed
                ==> plan::gets(p, replies, storage::ImageVolume::Create, Reply::Error)
                || plan::does(p, replies, storage::ImageVolume::Destroy)
        }),
{
    let p = storage::ImageVolume::Create;
    let end = plan::reached(p, replies);
    assert(plan::does(p, replies, storage::ImageVolume::Write)
        ==> plan::manages(p, replies, storage::ImageVolume::Create)) by {
        plan::lemma_way_in(
            p,
            replies,
            |x: storage::ImageVolume|
                x != storage::ImageVolume::Create && x != storage::ImageVolume::Failed,
            plan::managing(storage::ImageVolume::Create),
        );
    }
    assert(plan::does(p, replies, storage::ImageVolume::Destroy)
        ==> plan::gets(p, replies, storage::ImageVolume::Write, Reply::Error)) by {
        plan::lemma_way_in(
            p,
            replies,
            |x: storage::ImageVolume| x == storage::ImageVolume::Destroy,
            plan::getting(storage::ImageVolume::Write, Reply::Error),
        );
    }
    assert(end == storage::ImageVolume::Done ==> plan::manages(p, replies, storage::ImageVolume::Write)) by {
        plan::lemma_way_in(
            p,
            replies,
            |x: storage::ImageVolume| x == storage::ImageVolume::Done,
            plan::managing(storage::ImageVolume::Write),
        );
    }
    assert(end == storage::ImageVolume::Done ==> plan::manages(p, replies, storage::ImageVolume::Create)) by {
        plan::lemma_way_in(
            p,
            replies,
            |x: storage::ImageVolume|
                x != storage::ImageVolume::Create && x != storage::ImageVolume::Failed,
            plan::managing(storage::ImageVolume::Create),
        );
    }
    assert(end == storage::ImageVolume::Failed
        ==> plan::gets(p, replies, storage::ImageVolume::Create, Reply::Error)
        || plan::does(p, replies, storage::ImageVolume::Destroy)) by {
        plan::lemma_way_in(
            p,
            replies,
            |x: storage::ImageVolume| x == storage::ImageVolume::Failed,
            plan::either(plan::getting(storage::ImageVolume::Create, Reply::Error), plan::doing(storage::ImageVolume::Destroy)),
        );
        plan::lemma_either(
            p,
            replies,
            plan::getting(storage::ImageVolume::Create, Reply::Error),
            plan::doing(storage::ImageVolume::Destroy),
        );
    }
}

/// A volume is cloned from a base snapshot that was found. A phase is done only after
/// the ones it needs, and the work is done only where all of them were.
pub proof fn law_clone_order(replies: Seq<Reply>)
    ensures
        ({
            let p = storage::CloneVolume::AskBase;
            let end = plan::reached(p, replies);
            &&& !storage::CloneVolume::Done.doomed()
            &&& storage::CloneVolume::Failed.doomed()
            &&& plan::does(p, replies, storage::CloneVolume::RequireBase)
                ==> plan::manages(p, replies, storage::CloneVolume::AskBase)
            &&& plan::does(p, replies, storage::CloneVolume::Clone)
                ==> plan::manages(p, replies, storage::CloneVolume::RequireBase)
            &&& end == storage::CloneVolume::Done
                ==> plan::manages(p, replies, storage::CloneVolume::Clone)
            &&& end == storage::CloneVolume::Done
                ==> plan::manages(p, replies, storage::CloneVolume::AskBase)
            &&& end == storage::CloneVolume::Done
                ==> plan::manages(p, replies, storage::CloneVolume::RequireBase)
        }),
{
    let p = storage::CloneVolume::AskBase;
    let end = plan::reached(p, replies);
    assert(plan::does(p, replies, storage::CloneVolume::RequireBase)
        ==> plan::manages(p, replies, storage::CloneVolume::AskBase)) by {
        plan::lemma_way_in(
            p,
            replies,
            |x: storage::CloneVolume|
                x != storage::CloneVolume::AskBase && x != storage::CloneVolume::Failed,
            plan::managing(storage::CloneVolume::AskBase),
        );
    }
    assert(plan::does(p, replies, storage::CloneVolume::Clone)
        ==> plan::manages(p, replies, storage::CloneVolume::RequireBase)) by {
        plan::lemma_way_in(
            p,
            replies,
            |x: storage::CloneVolume|
                x == storage::CloneVolume::Clone || x == storage::CloneVolume::Done,
            plan::managing(storage::CloneVolume::RequireBase),
        );
    }
    assert(end == storage::CloneVolume::Done ==> plan::manages(p, replies, storage::CloneVolume::Clone)) by {
        plan::lemma_way_in(
            p,
            replies,
            |x: storage::CloneVolume| x == storage::CloneVolume::Done,
            plan::managing(storage::CloneVolume::Clone),
        );
    }
    assert(end == storage::CloneVolume::Done ==> plan::manages(p, replies, storage::CloneVolume::AskBase)) by {
        plan::lemma_way_in(
            p,
            replies,
            |x: storage::CloneVolume|
                x != storage::CloneVolume::AskBase && x != storage::CloneVolume::Failed,
            plan::managing(storage::CloneVolume::AskBase),
        );
    }
    assert(end == storage::CloneVolume::Done
        ==> plan::manages(p, replies, storage::CloneVolume::RequireBase)) by {
        plan::lemma_way_in(
            p,
            replies,
            |x: storage::CloneVolume|
                x == storage::CloneVolume::Clone || x == storage::CloneVolume::Done,
            plan::managing(storage::CloneVolume::RequireBase),
        );
    }
}

/// A volume is forked from a snapshot that was taken for that. A phase is done only
/// after the ones it needs, and the work is done only where all of them were.
pub proof fn law_fork_order(replies: Seq<Reply>)
    ensures
        ({
            let p = storage::ForkVolume::Snapshot;
            let end = plan::reached(p, replies);
            &&& !storage::ForkVolume::Done.doomed()
            &&& storage::ForkVolume::Failed.doomed()
            &&& plan::does(p, replies, storage::ForkVolume::Clone)
                ==> plan::manages(p, replies, storage::ForkVolume::Snapshot)
            &&& plan::does(p, replies, storage::ForkVolume::DestroySnapshot)
                ==> plan::gets(p, replies, storage::ForkVolume::Clone, Reply::Error)
            &&& end == storage::ForkVolume::Done
                ==> plan::manages(p, replies, storage::ForkVolume::Clone)
            &&& end == storage::ForkVolume::Done
                ==> plan::manages(p, replies, storage::ForkVolume::Snapshot)
            &&& end == storage::ForkVolume::Failed
                ==> plan::gets(p, replies, storage::ForkVolume::Snapshot, Reply::Error)
                || plan::does(p, replies, storage::ForkVolume::DestroySnapshot)
        }),
{
    let p = storage::ForkVolume::Snapshot;
    let end = plan::reached(p, replies);
    assert(plan::does(p, replies, storage::ForkVolume::Clone)
        ==> plan::manages(p, replies, storage::ForkVolume::Snapshot)) by {
        plan::lemma_way_in(
            p,
            replies,
            |x: storage::ForkVolume|
                x != storage::ForkVolume::Snapshot && x != storage::ForkVolume::Failed,
            plan::managing(storage::ForkVolume::Snapshot),
        );
    }
    assert(plan::does(p, replies, storage::ForkVolume::DestroySnapshot)
        ==> plan::gets(p, replies, storage::ForkVolume::Clone, Reply::Error)) by {
        plan::lemma_way_in(
            p,
            replies,
            |x: storage::ForkVolume| x == storage::ForkVolume::DestroySnapshot,
            plan::getting(storage::ForkVolume::Clone, Reply::Error),
        );
    }
    assert(end == storage::ForkVolume::Done ==> plan::manages(p, replies, storage::ForkVolume::Clone)) by {
        plan::lemma_way_in(
            p,
            replies,
            |x: storage::ForkVolume| x == storage::ForkVolume::Done,
            plan::managing(storage::ForkVolume::Clone),
        );
    }
    assert(end == storage::ForkVolume::Done ==> plan::manages(p, replies, storage::ForkVolume::Snapshot)) by {
        plan::lemma_way_in(
            p,
            replies,
            |x: storage::ForkVolume|
                x != storage::ForkVolume::Snapshot && x != storage::ForkVolume::Failed,
            plan::managing(storage::ForkVolume::Snapshot),
        );
    }
    assert(end == storage::ForkVolume::Failed
        ==> plan::gets(p, replies, storage::ForkVolume::Snapshot, Reply::Error)
        || plan::does(p, replies, storage::ForkVolume::DestroySnapshot)) by {
        plan::lemma_way_in(
            p,
            replies,
            |x: storage::ForkVolume| x == storage::ForkVolume::Failed,
            plan::either(plan::getting(storage::ForkVolume::Snapshot, Reply::Error), plan::doing(storage::ForkVolume::DestroySnapshot)),
        );
        plan::lemma_either(
            p,
            replies,
            plan::getting(storage::ForkVolume::Snapshot, Reply::Error),
            plan::doing(storage::ForkVolume::DestroySnapshot),
        );
    }
}

/// A volume gets its new size before its file system is checked and grown. A phase is
/// done only after the ones it needs, and the work is done only where all of them
/// were.
pub proof fn law_resize_order(replies: Seq<Reply>)
    ensures
        ({
            let p = storage::ResizeVolume::SetSize;
            let end = plan::reached(p, replies);
            &&& !storage::ResizeVolume::Done.doomed()
            &&& storage::ResizeVolume::Failed.doomed()
            &&& plan::does(p, replies, storage::ResizeVolume::WaitDevice)
                ==> plan::manages(p, replies, storage::ResizeVolume::SetSize)
            &&& plan::does(p, replies, storage::ResizeVolume::CheckFs)
                ==> plan::manages(p, replies, storage::ResizeVolume::WaitDevice)
            &&& plan::does(p, replies, storage::ResizeVolume::GrowFs)
                ==> plan::manages(p, replies, storage::ResizeVolume::CheckFs)
            &&& end == storage::ResizeVolume::Done
                ==> plan::manages(p, replies, storage::ResizeVolume::GrowFs)
            &&& end == storage::ResizeVolume::Done
                ==> plan::manages(p, replies, storage::ResizeVolume::SetSize)
            &&& end == storage::ResizeVolume::Done
                ==> plan::manages(p, replies, storage::ResizeVolume::WaitDevice)
            &&& end == storage::ResizeVolume::Done
                ==> plan::manages(p, replies, storage::ResizeVolume::CheckFs)
        }),
{
    let p = storage::ResizeVolume::SetSize;
    let end = plan::reached(p, replies);
    assert(plan::does(p, replies, storage::ResizeVolume::WaitDevice)
        ==> plan::manages(p, replies, storage::ResizeVolume::SetSize)) by {
        plan::lemma_way_in(
            p,
            replies,
            |x: storage::ResizeVolume|
                x != storage::ResizeVolume::SetSize && x != storage::ResizeVolume::Failed,
            plan::managing(storage::ResizeVolume::SetSize),
        );
    }
    assert(plan::does(p, replies, storage::ResizeVolume::CheckFs)
        ==> plan::manages(p, replies, storage::ResizeVolume::WaitDevice)) by {
        plan::lemma_way_in(
            p,
            replies,
            |x: storage::ResizeVolume|
                x == storage::ResizeVolume::CheckFs || x == storage::ResizeVolume::GrowFs
                    || x == storage::ResizeVolume::Done,
            plan::managing(storage::ResizeVolume::WaitDevice),
        );
    }
    assert(plan::does(p, replies, storage::ResizeVolume::GrowFs)
        ==> plan::manages(p, replies, storage::ResizeVolume::CheckFs)) by {
        plan::lemma_way_in(
            p,
            replies,
            |x: storage::ResizeVolume|
                x == storage::ResizeVolume::GrowFs || x == storage::ResizeVolume::Done,
            plan::managing(storage::ResizeVolume::CheckFs),
        );
    }
    assert(end == storage::ResizeVolume::Done
        ==> plan::manages(p, replies, storage::ResizeVolume::GrowFs)) by {
        plan::lemma_way_in(
            p,
            replies,
            |x: storage::ResizeVolume| x == storage::ResizeVolume::Done,
            plan::managing(storage::ResizeVolume::GrowFs),
        );
    }
    assert(end == storage::ResizeVolume::Done
        ==> plan::manages(p, replies, storage::ResizeVolume::SetSize)) by {
        plan::lemma_way_in(
            p,
            replies,
            |x: storage::ResizeVolume|
                x != storage::ResizeVolume::SetSize && x != storage::ResizeVolume::Failed,
            plan::managing(storage::ResizeVolume::SetSize),
        );
    }
    assert(end == storage::ResizeVolume::Done
        ==> plan::manages(p, replies, storage::ResizeVolume::WaitDevice)) by {
        plan::lemma_way_in(
            p,
            replies,
            |x: storage::ResizeVolume|
                x == storage::ResizeVolume::CheckFs || x == storage::ResizeVolume::GrowFs
                    || x == storage::ResizeVolume::Done,
            plan::managing(storage::ResizeVolume::WaitDevice),
        );
    }
    assert(end == storage::ResizeVolume::Done
        ==> plan::manages(p, replies, storage::ResizeVolume::CheckFs)) by {
        plan::lemma_way_in(
            p,
            replies,
            |x: storage::ResizeVolume|
                x == storage::ResizeVolume::GrowFs || x == storage::ResizeVolume::Done,
            plan::managing(storage::ResizeVolume::CheckFs),
        );
    }
}

/// A pool that is there is destroyed. A phase is done only after the ones it needs,
/// and the work is done only where all of them were.
pub proof fn law_teardown_order(replies: Seq<Reply>)
    ensures
        ({
            let p = storage::Teardown::AskPool;
            let end = plan::reached(p, replies);
            &&& !storage::Teardown::Done.doomed()
            &&& storage::Teardown::Failed.doomed()
            &&& plan::does(p, replies, storage::Teardown::Destroy)
                ==> plan::gets(p, replies, storage::Teardown::AskPool, Reply::Yes)
            &&& end == storage::Teardown::Done
                ==> plan::gets(p, replies, storage::Teardown::AskPool, Reply::No)
                || plan::manages(p, replies, storage::Teardown::Destroy)
            &&& end == storage::Teardown::Done
                ==> plan::manages(p, replies, storage::Teardown::AskPool)
        }),
{
    let p = storage::Teardown::AskPool;
    let end = plan::reached(p, replies);
    assert(plan::does(p, replies, storage::Teardown::Destroy)
        ==> plan::gets(p, replies, storage::Teardown::AskPool, Reply::Yes)) by {
        plan::lemma_way_in(
            p,
            replies,
            |x: storage::Teardown| x == storage::Teardown::Destroy,
            plan::getting(storage::Teardown::AskPool, Reply::Yes),
        );
    }
    assert(end == storage::Teardown::Done
        ==> plan::gets(p, replies, storage::Teardown::AskPool, Reply::No)
        || plan::manages(p, replies, storage::Teardown::Destroy)) by {
        plan::lemma_way_in(
            p,
            replies,
            |x: storage::Teardown| x == storage::Teardown::Done,
            plan::either(plan::getting(storage::Teardown::AskPool, Reply::No), plan::managing(storage::Teardown::Destroy)),
        );
        plan::lemma_either(
            p,
            replies,
            plan::getting(storage::Teardown::AskPool, Reply::No),
            plan::managing(storage::Teardown::Destroy),
        );
    }
    assert(end == storage::Teardown::Done ==> plan::manages(p, replies, storage::Teardown::AskPool)) by {
        plan::lemma_way_in(
            p,
            replies,
            |x: storage::Teardown|
                x == storage::Teardown::Destroy || x == storage::Teardown::Done,
            plan::managing(storage::Teardown::AskPool),
        );
    }
}

/// The steps that make the work fail.
pub open spec fn init_faults() -> spec_fn(storage::Init, Reply) -> bool {
    |x: storage::Init, r: Reply|
        r == Reply::Error && (x == storage::Init::AskPool || x == storage::Init::QueryPool
            || x == storage::Init::RequireDevice || x == storage::Init::CreatePool
            || x == storage::Init::AskBase || x == storage::Init::CreateBase
            || x == storage::Init::AskImages || x == storage::Init::CreateImages
            || x == storage::Init::AskVms || x == storage::Init::CreateVms)
}

/// The work fails in a run that takes one of these steps, and in no other.
pub proof fn law_init_failures(replies: Seq<Reply>)
    ensures
        plan::reached(storage::Init::AskPool, replies).doomed() <==> plan::went(
            storage::Init::AskPool,
            replies,
            init_faults(),
        ),
{
    let p = storage::Init::AskPool;
    plan::lemma_way_in(p, replies, |x: storage::Init| x == storage::Init::Failed, init_faults());
    plan::lemma_stays(p, replies, init_faults(), |x: storage::Init| x == storage::Init::Failed);
}

/// The steps that make the work fail.
pub open spec fn image_faults() -> spec_fn(storage::ImageVolume, Reply) -> bool {
    |x: storage::ImageVolume, r: Reply|
        r == Reply::Error && (x == storage::ImageVolume::Create
            || x == storage::ImageVolume::Write)
}

/// The work fails in a run that takes one of these steps, and in no other.
pub proof fn law_image_failures(replies: Seq<Reply>)
    ensures
        plan::reached(storage::ImageVolume::Create, replies).doomed() <==> plan::went(
            storage::ImageVolume::Create,
            replies,
            image_faults(),
        ),
{
    let p = storage::ImageVolume::Create;
    plan::lemma_way_in(
        p,
        replies,
        |x: storage::ImageVolume|
                x == storage::ImageVolume::Destroy || x == storage::ImageVolume::Failed,
        image_faults(),
    );
    plan::lemma_stays(
        p,
        replies,
        image_faults(),
        |x: storage::ImageVolume|
                x == storage::ImageVolume::Destroy || x == storage::ImageVolume::Failed,
    );
}

/// The steps that make the work fail.
pub open spec fn clone_faults() -> spec_fn(storage::CloneVolume, Reply) -> bool {
    |x: storage::CloneVolume, r: Reply|
        r == Reply::Error && (x == storage::CloneVolume::AskBase
            || x == storage::CloneVolume::RequireBase || x == storage::CloneVolume::Clone)
}

/// The work fails in a run that takes one of these steps, and in no other.
pub proof fn law_clone_failures(replies: Seq<Reply>)
    ensures
        plan::reached(storage::CloneVolume::AskBase, replies).doomed() <==> plan::went(
            storage::CloneVolume::AskBase,
            replies,
            clone_faults(),
        ),
{
    let p = storage::CloneVolume::AskBase;
    plan::lemma_way_in(
        p,
        replies,
        |x: storage::CloneVolume| x == storage::CloneVolume::Failed,
        clone_faults(),
    );
    plan::lemma_stays(
        p,
        replies,
        clone_faults(),
        |x: storage::CloneVolume| x == storage::CloneVolume::Failed,
    );
}

/// The steps that make the work fail.
pub open spec fn fork_faults() -> spec_fn(storage::ForkVolume, Reply) -> bool {
    |x: storage::ForkVolume, r: Reply|
        r == Reply::Error && (x == storage::ForkVolume::Snapshot
            || x == storage::ForkVolume::Clone)
}

/// The work fails in a run that takes one of these steps, and in no other.
pub proof fn law_fork_failures(replies: Seq<Reply>)
    ensures
        plan::reached(storage::ForkVolume::Snapshot, replies).doomed() <==> plan::went(
            storage::ForkVolume::Snapshot,
            replies,
            fork_faults(),
        ),
{
    let p = storage::ForkVolume::Snapshot;
    plan::lemma_way_in(
        p,
        replies,
        |x: storage::ForkVolume|
                x == storage::ForkVolume::DestroySnapshot || x == storage::ForkVolume::Failed,
        fork_faults(),
    );
    plan::lemma_stays(
        p,
        replies,
        fork_faults(),
        |x: storage::ForkVolume|
                x == storage::ForkVolume::DestroySnapshot || x == storage::ForkVolume::Failed,
    );
}

/// The steps that make the work fail.
pub open spec fn resize_faults() -> spec_fn(storage::ResizeVolume, Reply) -> bool {
    |x: storage::ResizeVolume, r: Reply|
        r == Reply::Error && (x == storage::ResizeVolume::SetSize
            || x == storage::ResizeVolume::WaitDevice || x == storage::ResizeVolume::CheckFs
            || x == storage::ResizeVolume::GrowFs)
}

/// The work fails in a run that takes one of these steps, and in no other.
pub proof fn law_resize_failures(replies: Seq<Reply>)
    ensures
        plan::reached(storage::ResizeVolume::SetSize, replies).doomed() <==> plan::went(
            storage::ResizeVolume::SetSize,
            replies,
            resize_faults(),
        ),
{
    let p = storage::ResizeVolume::SetSize;
    plan::lemma_way_in(
        p,
        replies,
        |x: storage::ResizeVolume| x == storage::ResizeVolume::Failed,
        resize_faults(),
    );
    plan::lemma_stays(
        p,
        replies,
        resize_faults(),
        |x: storage::ResizeVolume| x == storage::ResizeVolume::Failed,
    );
}

/// The steps that make the work fail.
pub open spec fn teardown_faults() -> spec_fn(storage::Teardown, Reply) -> bool {
    |x: storage::Teardown, r: Reply|
        r == Reply::Error && (x == storage::Teardown::AskPool || x == storage::Teardown::Destroy)
}

/// The work fails in a run that takes one of these steps, and in no other.
pub proof fn law_teardown_failures(replies: Seq<Reply>)
    ensures
        plan::reached(storage::Teardown::AskPool, replies).doomed() <==> plan::went(
            storage::Teardown::AskPool,
            replies,
            teardown_faults(),
        ),
{
    let p = storage::Teardown::AskPool;
    plan::lemma_way_in(
        p,
        replies,
        |x: storage::Teardown| x == storage::Teardown::Failed,
        teardown_faults(),
    );
    plan::lemma_stays(
        p,
        replies,
        teardown_faults(),
        |x: storage::Teardown| x == storage::Teardown::Failed,
    );
}

} // verus!
