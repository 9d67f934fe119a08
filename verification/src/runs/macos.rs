//! The order of work on the VMs of a macOS host and their disks, in every run.
use crate::macos::{storage, vm};
use crate::plan;
use crate::plan::{Plan, Reply};
use vstd::prelude::*;

verus! {

/// An image is imported into a directory that was made for it. A phase is done only
/// after the ones it needs, and the work is done only where all of them were.
pub proof fn law_import_order(replies: Seq<Reply>)
    ensures
        ({
            let p = storage::Import::MakeDir;
            let end = plan::reached(p, replies);
            &&& !storage::Import::Done.doomed()
            &&& storage::Import::Failed.doomed()
            &&& plan::does(p, replies, storage::Import::Rename)
                ==> plan::manages(p, replies, storage::Import::MakeDir)
            &&& plan::does(p, replies, storage::Import::Copy)
                ==> plan::gets(p, replies, storage::Import::Rename, Reply::Error)
            &&& plan::does(p, replies, storage::Import::RemoveSource)
                ==> plan::manages(p, replies, storage::Import::Copy)
            &&& end == storage::Import::Done
                ==> plan::manages(p, replies, storage::Import::Rename)
                || plan::does(p, replies, storage::Import::RemoveSource)
            &&& end == storage::Import::Done ==> plan::manages(p, replies, storage::Import::MakeDir)
            &&& end == storage::Import::Done ==> plan::does(p, replies, storage::Import::Rename)
        }),
{
    let p = storage::Import::MakeDir;
    let end = plan::reached(p, replies);
    assert(plan::does(p, replies, storage::Import::Rename)
        ==> plan::manages(p, replies, storage::Import::MakeDir)) by {
        plan::lemma_way_in(
            p,
            replies,
            |x: storage::Import|
                x != storage::Import::MakeDir && x != storage::Import::Failed,
            plan::managing(storage::Import::MakeDir),
        );
    }
    assert(plan::does(p, replies, storage::Import::Copy)
        ==> plan::gets(p, replies, storage::Import::Rename, Reply::Error)) by {
        plan::lemma_way_in(
            p,
            replies,
            |x: storage::Import|
                x == storage::Import::Copy || x == storage::Import::RemoveSource,
            plan::getting(storage::Import::Rename, Reply::Error),
        );
    }
    assert(plan::does(p, replies, storage::Import::RemoveSource)
        ==> plan::manages(p, replies, storage::Import::Copy)) by {
        plan::lemma_way_in(
            p,
            replies,
            |x: storage::Import| x == storage::Import::RemoveSource,
            plan::managing(storage::Import::Copy),
        );
    }
    assert(end == storage::Import::Done
        ==> plan::manages(p, replies, storage::Import::Rename)
        || plan::does(p, replies, storage::Import::RemoveSource)) by {
        plan::lemma_way_in(
            p,
            replies,
            |x: storage::Import| x == storage::Import::Done,
            plan::either(plan::managing(storage::Import::Rename), plan::doing(storage::Import::RemoveSource)),
        );
        plan::lemma_either(
            p,
            replies,
            plan::managing(storage::Import::Rename),
            plan::doing(storage::Import::RemoveSource),
        );
    }
    assert(end == storage::Import::Done ==> plan::manages(p, replies, storage::Import::MakeDir)) by {
        plan::lemma_way_in(
            p,
            replies,
            |x: storage::Import|
                x != storage::Import::MakeDir && x != storage::Import::Failed,
            plan::managing(storage::Import::MakeDir),
        );
    }
    assert(end == storage::Import::Done ==> plan::does(p, replies, storage::Import::Rename)) by {
        plan::lemma_way_in(
            p,
            replies,
            |x: storage::Import|
                x == storage::Import::Copy || x == storage::Import::RemoveSource
                    || x == storage::Import::Done,
            plan::doing(storage::Import::Rename),
        );
    }
}

/// A disk is cloned from one that is there, into the directory of the VM. A phase is
/// done only after the ones it needs, and the work is done only where all of them
/// were.
pub proof fn law_clone_order(replies: Seq<Reply>)
    ensures
        ({
            let p = storage::CloneDisk::RequireSource;
            let end = plan::reached(p, replies);
            &&& !storage::CloneDisk::Done.doomed()
            &&& storage::CloneDisk::Failed.doomed()
            &&& plan::does(p, replies, storage::CloneDisk::MakeDir)
                ==> plan::manages(p, replies, storage::CloneDisk::RequireSource)
            &&& plan::does(p, replies, storage::CloneDisk::Clone)
                ==> plan::manages(p, replies, storage::CloneDisk::MakeDir)
            &&& end == storage::CloneDisk::Done
                ==> plan::manages(p, replies, storage::CloneDisk::Clone)
            &&& end == storage::CloneDisk::Done
                ==> plan::manages(p, replies, storage::CloneDisk::RequireSource)
            &&& end == storage::CloneDisk::Done
                ==> plan::manages(p, replies, storage::CloneDisk::MakeDir)
        }),
{
    let p = storage::CloneDisk::RequireSource;
    let end = plan::reached(p, replies);
    assert(plan::does(p, replies, storage::CloneDisk::MakeDir)
        ==> plan::manages(p, replies, storage::CloneDisk::RequireSource)) by {
        plan::lemma_way_in(
            p,
            replies,
            |x: storage::CloneDisk|
                x != storage::CloneDisk::RequireSource && x != storage::CloneDisk::Failed,
            plan::managing(storage::CloneDisk::RequireSource),
        );
    }
    assert(plan::does(p, replies, storage::CloneDisk::Clone)
        ==> plan::manages(p, replies, storage::CloneDisk::MakeDir)) by {
        plan::lemma_way_in(
            p,
            replies,
            |x: storage::CloneDisk|
                x == storage::CloneDisk::Clone || x == storage::CloneDisk::Done,
            plan::managing(storage::CloneDisk::MakeDir),
        );
    }
    assert(end == storage::CloneDisk::Done ==> plan::manages(p, replies, storage::CloneDisk::Clone)) by {
        plan::lemma_way_in(
            p,
            replies,
            |x: storage::CloneDisk| x == storage::CloneDisk::Done,
            plan::managing(storage::CloneDisk::Clone),
        );
    }
    assert(end == storage::CloneDisk::Done
        ==> plan::manages(p, replies, storage::CloneDisk::RequireSource)) by {
        plan::lemma_way_in(
            p,
            replies,
            |x: storage::CloneDisk|
                x != storage::CloneDisk::RequireSource && x != storage::CloneDisk::Failed,
            plan::managing(storage::CloneDisk::RequireSource),
        );
    }
    assert(end == storage::CloneDisk::Done ==> plan::manages(p, replies, storage::CloneDisk::MakeDir)) by {
        plan::lemma_way_in(
            p,
            replies,
            |x: storage::CloneDisk|
                x == storage::CloneDisk::Clone || x == storage::CloneDisk::Done,
            plan::managing(storage::CloneDisk::MakeDir),
        );
    }
}

/// The file of a disk grows before the file system on it, which is checked in
/// between. A phase is done only after the ones it needs, and the work is done only
/// where all of them were.
pub proof fn law_resize_order(replies: Seq<Reply>)
    ensures
        ({
            let p = storage::Resize::RequireDisk;
            let end = plan::reached(p, replies);
            &&& !storage::Resize::Done.doomed()
            &&& storage::Resize::Failed.doomed()
            &&& plan::does(p, replies, storage::Resize::RequireGrowth)
                ==> plan::manages(p, replies, storage::Resize::RequireDisk)
            &&& plan::does(p, replies, storage::Resize::Truncate)
                ==> plan::manages(p, replies, storage::Resize::RequireGrowth)
            &&& plan::does(p, replies, storage::Resize::CheckFilesystem)
                ==> plan::manages(p, replies, storage::Resize::Truncate)
            &&& plan::does(p, replies, storage::Resize::ExpandFilesystem)
                ==> plan::manages(p, replies, storage::Resize::CheckFilesystem)
            &&& end == storage::Resize::Done
                ==> plan::manages(p, replies, storage::Resize::ExpandFilesystem)
            &&& end == storage::Resize::Done
                ==> plan::manages(p, replies, storage::Resize::RequireDisk)
            &&& end == storage::Resize::Done
                ==> plan::manages(p, replies, storage::Resize::RequireGrowth)
            &&& end == storage::Resize::Done ==> plan::manages(p, replies, storage::Resize::Truncate)
            &&& end == storage::Resize::Done
                ==> plan::manages(p, replies, storage::Resize::CheckFilesystem)
        }),
{
    let p = storage::Resize::RequireDisk;
    let end = plan::reached(p, replies);
    assert(plan::does(p, replies, storage::Resize::RequireGrowth)
        ==> plan::manages(p, replies, storage::Resize::RequireDisk)) by {
        plan::lemma_way_in(
            p,
            replies,
            |x: storage::Resize|
                x != storage::Resize::RequireDisk && x != storage::Resize::Failed,
            plan::managing(storage::Resize::RequireDisk),
        );
    }
    assert(plan::does(p, replies, storage::Resize::Truncate)
        ==> plan::manages(p, replies, storage::Resize::RequireGrowth)) by {
        plan::lemma_way_in(
            p,
            replies,
            |x: storage::Resize|
                x != storage::Resize::RequireDisk && x != storage::Resize::RequireGrowth
                    && x != storage::Resize::Failed,
            plan::managing(storage::Resize::RequireGrowth),
        );
    }
    assert(plan::does(p, replies, storage::Resize::CheckFilesystem)
        ==> plan::manages(p, replies, storage::Resize::Truncate)) by {
        plan::lemma_way_in(
            p,
            replies,
            |x: storage::Resize|
                x == storage::Resize::CheckFilesystem || x == storage::Resize::ExpandFilesystem
                    || x == storage::Resize::Done,
            plan::managing(storage::Resize::Truncate),
        );
    }
    assert(plan::does(p, replies, storage::Resize::ExpandFilesystem)
        ==> plan::manages(p, replies, storage::Resize::CheckFilesystem)) by {
        plan::lemma_way_in(
            p,
            replies,
            |x: storage::Resize|
                x == storage::Resize::ExpandFilesystem || x == storage::Resize::Done,
            plan::managing(storage::Resize::CheckFilesystem),
        );
    }
    assert(end == storage::Resize::Done ==> plan::manages(p, replies, storage::Resize::ExpandFilesystem)) by {
        plan::lemma_way_in(
            p,
            replies,
            |x: storage::Resize| x == storage::Resize::Done,
            plan::managing(storage::Resize::ExpandFilesystem),
        );
    }
    assert(end == storage::Resize::Done ==> plan::manages(p, replies, storage::Resize::RequireDisk)) by {
        plan::lemma_way_in(
            p,
            replies,
            |x: storage::Resize|
                x != storage::Resize::RequireDisk && x != storage::Resize::Failed,
            plan::managing(storage::Resize::RequireDisk),
        );
    }
    assert(end == storage::Resize::Done ==> plan::manages(p, replies, storage::Resize::RequireGrowth)) by {
        plan::lemma_way_in(
            p,
            replies,
            |x: storage::Resize|
                x != storage::Resize::RequireDisk && x != storage::Resize::RequireGrowth
                    && x != storage::Resize::Failed,
            plan::managing(storage::Resize::RequireGrowth),
        );
    }
    assert(end == storage::Resize::Done ==> plan::manages(p, replies, storage::Resize::Truncate)) by {
        plan::lemma_way_in(
            p,
            replies,
            |x: storage::Resize|
                x == storage::Resize::CheckFilesystem || x == storage::Resize::ExpandFilesystem
                    || x == storage::Resize::Done,
            plan::managing(storage::Resize::Truncate),
        );
    }
    assert(end == storage::Resize::Done ==> plan::manages(p, replies, storage::Resize::CheckFilesystem)) by {
        plan::lemma_way_in(
            p,
            replies,
            |x: storage::Resize|
                x == storage::Resize::ExpandFilesystem || x == storage::Resize::Done,
            plan::managing(storage::Resize::CheckFilesystem),
        );
    }
}

/// What is there is removed. A phase is done only after the ones it needs, and the
/// work is done only where all of them were.
pub proof fn law_removal_order(replies: Seq<Reply>)
    ensures
        ({
            let p = storage::Removal::AskFound;
            let end = plan::reached(p, replies);
            &&& !storage::Removal::Done.doomed()
            &&& storage::Removal::Failed.doomed()
            &&& plan::does(p, replies, storage::Removal::Remove)
                ==> plan::gets(p, replies, storage::Removal::AskFound, Reply::Yes)
            &&& end == storage::Removal::Done
                ==> plan::gets(p, replies, storage::Removal::AskFound, Reply::No)
                || plan::manages(p, replies, storage::Removal::Remove)
            &&& end == storage::Removal::Done
                ==> plan::manages(p, replies, storage::Removal::AskFound)
        }),
{
    let p = storage::Removal::AskFound;
    let end = plan::reached(p, replies);
    assert(plan::does(p, replies, storage::Removal::Remove)
        ==> plan::gets(p, replies, storage::Removal::AskFound, Reply::Yes)) by {
        plan::lemma_way_in(
            p,
            replies,
            |x: storage::Removal| x == storage::Removal::Remove,
            plan::getting(storage::Removal::AskFound, Reply::Yes),
        );
    }
    assert(end == storage::Removal::Done
        ==> plan::gets(p, replies, storage::Removal::AskFound, Reply::No)
        || plan::manages(p, replies, storage::Removal::Remove)) by {
        plan::lemma_way_in(
            p,
            replies,
            |x: storage::Removal| x == storage::Removal::Done,
            plan::either(plan::getting(storage::Removal::AskFound, Reply::No), plan::managing(storage::Removal::Remove)),
        );
        plan::lemma_either(
            p,
            replies,
            plan::getting(storage::Removal::AskFound, Reply::No),
            plan::managing(storage::Removal::Remove),
        );
    }
    assert(end == storage::Removal::Done ==> plan::manages(p, replies, storage::Removal::AskFound)) by {
        plan::lemma_way_in(
            p,
            replies,
            |x: storage::Removal|
                x == storage::Removal::Remove || x == storage::Removal::Done,
            plan::managing(storage::Removal::AskFound),
        );
    }
}

/// Disks are removed where that is wanted and they are there. A phase is done only
/// after the ones it needs, and the work is done only where all of them were.
pub proof fn law_deinit_order(replies: Seq<Reply>)
    ensures
        ({
            let p = storage::Deinit::AskPurge;
            let end = plan::reached(p, replies);
            &&& !storage::Deinit::Done.doomed()
            &&& storage::Deinit::Failed.doomed()
            &&& plan::does(p, replies, storage::Deinit::AskImages)
                ==> plan::gets(p, replies, storage::Deinit::AskPurge, Reply::Yes)
            &&& plan::does(p, replies, storage::Deinit::RemoveImages)
                ==> plan::gets(p, replies, storage::Deinit::AskImages, Reply::Yes)
            &&& plan::does(p, replies, storage::Deinit::AskVms)
                ==> plan::gets(p, replies, storage::Deinit::AskImages, Reply::No)
                || plan::manages(p, replies, storage::Deinit::RemoveImages)
            &&& plan::does(p, replies, storage::Deinit::RemoveVms)
                ==> plan::gets(p, replies, storage::Deinit::AskVms, Reply::Yes)
            &&& end == storage::Deinit::Done
                ==> plan::gets(p, replies, storage::Deinit::AskPurge, Reply::No)
                || plan::gets(p, replies, storage::Deinit::AskVms, Reply::No)
                || plan::manages(p, replies, storage::Deinit::RemoveVms)
            &&& end == storage::Deinit::Done ==> plan::manages(p, replies, storage::Deinit::AskPurge)
        }),
{
    let p = storage::Deinit::AskPurge;
    let end = plan::reached(p, replies);
    assert(plan::does(p, replies, storage::Deinit::AskImages)
        ==> plan::gets(p, replies, storage::Deinit::AskPurge, Reply::Yes)) by {
        plan::lemma_way_in(
            p,
            replies,
            |x: storage::Deinit|
                x != storage::Deinit::AskPurge && x != storage::Deinit::Done
                    && x != storage::Deinit::Failed,
            plan::getting(storage::Deinit::AskPurge, Reply::Yes),
        );
    }
    assert(plan::does(p, replies, storage::Deinit::RemoveImages)
        ==> plan::gets(p, replies, storage::Deinit::AskImages, Reply::Yes)) by {
        plan::lemma_way_in(
            p,
            replies,
            |x: storage::Deinit| x == storage::Deinit::RemoveImages,
            plan::getting(storage::Deinit::AskImages, Reply::Yes),
        );
    }
    assert(plan::does(p, replies, storage::Deinit::AskVms)
        ==> plan::gets(p, replies, storage::Deinit::AskImages, Reply::No)
        || plan::manages(p, replies, storage::Deinit::RemoveImages)) by {
        plan::lemma_way_in(
            p,
            replies,
            |x: storage::Deinit|
                x == storage::Deinit::AskVms || x == storage::Deinit::RemoveVms,
            plan::either(plan::getting(storage::Deinit::AskImages, Reply::No), plan::managing(storage::Deinit::RemoveImages)),
        );
        plan::lemma_either(
            p,
            replies,
            plan::getting(storage::Deinit::AskImages, Reply::No),
            plan::managing(storage::Deinit::RemoveImages),
        );
    }
    assert(plan::does(p, replies, storage::Deinit::RemoveVms)
        ==> plan::gets(p, replies, storage::Deinit::AskVms, Reply::Yes)) by {
        plan::lemma_way_in(
            p,
            replies,
            |x: storage::Deinit| x == storage::Deinit::RemoveVms,
            plan::getting(storage::Deinit::AskVms, Reply::Yes),
        );
    }
    assert(end == storage::Deinit::Done
        ==> plan::gets(p, replies, storage::Deinit::AskPurge, Reply::No)
        || plan::gets(p, replies, storage::Deinit::AskVms, Reply::No)
        || plan::manages(p, replies, storage::Deinit::RemoveVms)) by {
        plan::lemma_way_in(
            p,
            replies,
            |x: storage::Deinit| x == storage::Deinit::Done,
            plan::either(plan::getting(storage::Deinit::AskPurge, Reply::No), plan::either(plan::getting(storage::Deinit::AskVms, Reply::No), plan::managing(storage::Deinit::RemoveVms))),
        );
        plan::lemma_either(
            p,
            replies,
            plan::getting(storage::Deinit::AskPurge, Reply::No),
            plan::either(plan::getting(storage::Deinit::AskVms, Reply::No), plan::managing(storage::Deinit::RemoveVms)),
        );
        plan::lemma_either(
            p,
            replies,
            plan::getting(storage::Deinit::AskVms, Reply::No),
            plan::managing(storage::Deinit::RemoveVms),
        );
    }
    assert(end == storage::Deinit::Done ==> plan::manages(p, replies, storage::Deinit::AskPurge)) by {
        plan::lemma_way_in(
            p,
            replies,
            |x: storage::Deinit|
                x != storage::Deinit::AskPurge && x != storage::Deinit::Failed,
            plan::managing(storage::Deinit::AskPurge),
        );
    }
}

/// A key is put into a disk for the user that was found there, and looked for
/// afterwards. A phase is done only after the ones it needs, and the work is done
/// only where all of them were.
pub proof fn law_inject_key_order(replies: Seq<Reply>)
    ensures
        ({
            let p = storage::InjectKey::Stat;
            let end = plan::reached(p, replies);
            &&& !storage::InjectKey::Done.doomed()
            &&& storage::InjectKey::Failed.doomed()
            &&& plan::does(p, replies, storage::InjectKey::AskUser)
                ==> plan::manages(p, replies, storage::InjectKey::Stat)
            &&& plan::does(p, replies, storage::InjectKey::ReadPasswd)
                ==> plan::gets(p, replies, storage::InjectKey::AskUser, Reply::Yes)
            &&& plan::does(p, replies, storage::InjectKey::Canonicalize)
                ==> plan::gets(p, replies, storage::InjectKey::AskUser, Reply::No)
                || plan::does(p, replies, storage::InjectKey::ReadPasswd)
            &&& plan::does(p, replies, storage::InjectKey::WriteScript)
                ==> plan::manages(p, replies, storage::InjectKey::Canonicalize)
            &&& plan::does(p, replies, storage::InjectKey::RunScript)
                ==> plan::manages(p, replies, storage::InjectKey::WriteScript)
            &&& plan::does(p, replies, storage::InjectKey::Verify)
                ==> plan::manages(p, replies, storage::InjectKey::RunScript)
            &&& end == storage::InjectKey::Done
                ==> plan::manages(p, replies, storage::InjectKey::Verify)
            &&& end == storage::InjectKey::Done
                ==> plan::manages(p, replies, storage::InjectKey::Stat)
            &&& end == storage::InjectKey::Done
                ==> plan::manages(p, replies, storage::InjectKey::AskUser)
            &&& end == storage::InjectKey::Done
                ==> plan::manages(p, replies, storage::InjectKey::Canonicalize)
            &&& end == storage::InjectKey::Done
                ==> plan::manages(p, replies, storage::InjectKey::WriteScript)
            &&& end == storage::InjectKey::Done
                ==> plan::manages(p, replies, storage::InjectKey::RunScript)
        }),
{
    let p = storage::InjectKey::Stat;
    let end = plan::reached(p, replies);
    assert(plan::does(p, replies, storage::InjectKey::AskUser)
        ==> plan::manages(p, replies, storage::InjectKey::Stat)) by {
        plan::lemma_way_in(
            p,
            replies,
            |x: storage::InjectKey|
                x != storage::InjectKey::Stat && x != storage::InjectKey::Failed,
            plan::managing(storage::InjectKey::Stat),
        );
    }
    assert(plan::does(p, replies, storage::InjectKey::ReadPasswd)
        ==> plan::gets(p, replies, storage::InjectKey::AskUser, Reply::Yes)) by {
        plan::lemma_way_in(
            p,
            replies,
            |x: storage::InjectKey| x == storage::InjectKey::ReadPasswd,
            plan::getting(storage::InjectKey::AskUser, Reply::Yes),
        );
    }
    assert(plan::does(p, replies, storage::InjectKey::Canonicalize)
        ==> plan::gets(p, replies, storage::InjectKey::AskUser, Reply::No)
        || plan::does(p, replies, storage::InjectKey::ReadPasswd)) by {
        plan::lemma_way_in(
            p,
            replies,
            |x: storage::InjectKey|
                x != storage::InjectKey::Stat && x != storage::InjectKey::AskUser
                    && x != storage::InjectKey::ReadPasswd && x != storage::InjectKey::Failed,
            plan::either(plan::getting(storage::InjectKey::AskUser, Reply::No), plan::doing(storage::InjectKey::ReadPasswd)),
        );
        plan::lemma_either(
            p,
            replies,
            plan::getting(storage::InjectKey::AskUser, Reply::No),
            plan::doing(storage::InjectKey::ReadPasswd),
        );
    }
    assert(plan::does(p, replies, storage::InjectKey::WriteScript)
        ==> plan::manages(p, replies, storage::InjectKey::Canonicalize)) by {
        plan::lemma_way_in(
            p,
            replies,
            |x: storage::InjectKey|
                x == storage::InjectKey::WriteScript || x == storage::InjectKey::RunScript
                    || x == storage::InjectKey::Verify || x == storage::InjectKey::Done,
            plan::managing(storage::InjectKey::Canonicalize),
        );
    }
    assert(plan::does(p, replies, storage::InjectKey::RunScript)
        ==> plan::manages(p, replies, storage::InjectKey::WriteScript)) by {
        plan::lemma_way_in(
            p,
            replies,
            |x: storage::InjectKey|
                x == storage::InjectKey::RunScript || x == storage::InjectKey::Verify
                    || x == storage::InjectKey::Done,
            plan::managing(storage::InjectKey::WriteScript),
        );
    }
    assert(plan::does(p, replies, storage::InjectKey::Verify)
        ==> plan::manages(p, replies, storage::InjectKey::RunScript)) by {
        plan::lemma_way_in(
            p,
            replies,
            |x: storage::InjectKey|
                x == storage::InjectKey::Verify || x == storage::InjectKey::Done,
            plan::managing(storage::InjectKey::RunScript),
        );
    }
    assert(end == storage::InjectKey::Done ==> plan::manages(p, replies, storage::InjectKey::Verify)) by {
        plan::lemma_way_in(
            p,
            replies,
            |x: storage::InjectKey| x == storage::InjectKey::Done,
            plan::managing(storage::InjectKey::Verify),
        );
    }
    assert(end == storage::InjectKey::Done ==> plan::manages(p, replies, storage::InjectKey::Stat)) by {
        plan::lemma_way_in(
            p,
            replies,
            |x: storage::InjectKey|
                x != storage::InjectKey::Stat && x != storage::InjectKey::Failed,
            plan::managing(storage::InjectKey::Stat),
        );
    }
    assert(end == storage::InjectKey::Done ==> plan::manages(p, replies, storage::InjectKey::AskUser)) by {
        plan::lemma_way_in(
            p,
            replies,
            |x: storage::InjectKey|
                x != storage::InjectKey::Stat && x != storage::InjectKey::AskUser
                    && x != storage::InjectKey::Failed,
            plan::managing(storage::InjectKey::AskUser),
        );
    }
    assert(end == storage::InjectKey::Done
        ==> plan::manages(p, replies, storage::InjectKey::Canonicalize)) by {
        plan::lemma_way_in(
            p,
            replies,
            |x: storage::InjectKey|
                x == storage::InjectKey::WriteScript || x == storage::InjectKey::RunScript
                    || x == storage::InjectKey::Verify || x == storage::InjectKey::Done,
            plan::managing(storage::InjectKey::Canonicalize),
        );
    }
    assert(end == storage::InjectKey::Done ==> plan::manages(p, replies, storage::InjectKey::WriteScript)) by {
        plan::lemma_way_in(
            p,
            replies,
            |x: storage::InjectKey|
                x == storage::InjectKey::RunScript || x == storage::InjectKey::Verify
                    || x == storage::InjectKey::Done,
            plan::managing(storage::InjectKey::WriteScript),
        );
    }
    assert(end == storage::InjectKey::Done ==> plan::manages(p, replies, storage::InjectKey::RunScript)) by {
        plan::lemma_way_in(
            p,
            replies,
            |x: storage::InjectKey|
                x == storage::InjectKey::Verify || x == storage::InjectKey::Done,
            plan::managing(storage::InjectKey::RunScript),
        );
    }
}

/// The name of a VM is put into its disk by a script that was written. A phase is
/// done only after the ones it needs, and the work is done only where all of them
/// were.
pub proof fn law_inject_hostname_order(replies: Seq<Reply>)
    ensures
        ({
            let p = storage::InjectHostname::WriteHosts;
            let end = plan::reached(p, replies);
            &&& !storage::InjectHostname::Done.doomed()
            &&& storage::InjectHostname::Failed.doomed()
            &&& plan::does(p, replies, storage::InjectHostname::WriteScript)
                ==> plan::manages(p, replies, storage::InjectHostname::WriteHosts)
            &&& plan::does(p, replies, storage::InjectHostname::RunScript)
                ==> plan::manages(p, replies, storage::InjectHostname::WriteScript)
            &&& end == storage::InjectHostname::Done
                ==> plan::manages(p, replies, storage::InjectHostname::RunScript)
            &&& end == storage::InjectHostname::Done
                ==> plan::manages(p, replies, storage::InjectHostname::WriteHosts)
            &&& end == storage::InjectHostname::Done
                ==> plan::manages(p, replies, storage::InjectHostname::WriteScript)
        }),
{
    let p = storage::InjectHostname::WriteHosts;
    let end = plan::reached(p, replies);
    assert(plan::does(p, replies, storage::InjectHostname::WriteScript)
        ==> plan::manages(p, replies, storage::InjectHostname::WriteHosts)) by {
        plan::lemma_way_in(
            p,
            replies,
            |x: storage::InjectHostname|
                x != storage::InjectHostname::WriteHosts && x != storage::InjectHostname::Failed,
            plan::managing(storage::InjectHostname::WriteHosts),
        );
    }
    assert(plan::does(p, replies, storage::InjectHostname::RunScript)
        ==> plan::manages(p, replies, storage::InjectHostname::WriteScript)) by {
        plan::lemma_way_in(
            p,
            replies,
            |x: storage::InjectHostname|
                x == storage::InjectHostname::RunScript || x == storage::InjectHostname::Done,
            plan::managing(storage::InjectHostname::WriteScript),
        );
    }
    assert(end == storage::InjectHostname::Done
        ==> plan::manages(p, replies, storage::InjectHostname::RunScript)) by {
        plan::lemma_way_in(
            p,
            replies,
            |x: storage::InjectHostname| x == storage::InjectHostname::Done,
            plan::managing(storage::InjectHostname::RunScript),
        );
    }
    assert(end == storage::InjectHostname::Done
        ==> plan::manages(p, replies, storage::InjectHostname::WriteHosts)) by {
        plan::lemma_way_in(
            p,
            replies,
            |x: storage::InjectHostname|
                x != storage::InjectHostname::WriteHosts && x != storage::InjectHostname::Failed,
            plan::managing(storage::InjectHostname::WriteHosts),
        );
    }
    assert(end == storage::InjectHostname::Done
        ==> plan::manages(p, replies, storage::InjectHostname::WriteScript)) by {
        plan::lemma_way_in(
            p,
            replies,
            |x: storage::InjectHostname|
                x == storage::InjectHostname::RunScript || x == storage::InjectHostname::Done,
            plan::managing(storage::InjectHostname::WriteScript),
        );
    }
}

/// A VM runs once its helper was started and has reported. A phase is done only after
/// the ones it needs, and the work is done only where all of them were.
pub proof fn law_start_order(replies: Seq<Reply>)
    ensures
        ({
            let p = vm::Start::MakePipe;
            let end = plan::reached(p, replies);
            &&& !vm::Start::Started.doomed()
            &&& vm::Start::Failed.doomed()
            &&& plan::does(p, replies, vm::Start::OpenLog)
                ==> plan::manages(p, replies, vm::Start::MakePipe)
            &&& plan::does(p, replies, vm::Start::Spawn)
                ==> plan::does(p, replies, vm::Start::OpenLog)
            &&& plan::does(p, replies, vm::Start::ReadMac)
                ==> plan::manages(p, replies, vm::Start::Spawn)
            &&& plan::does(p, replies, vm::Start::AskExited)
                ==> plan::gets(p, replies, vm::Start::ReadMac, Reply::Error)
            &&& plan::does(p, replies, vm::Start::Kill)
                ==> plan::gets(p, replies, vm::Start::AskExited, Reply::No)
            &&& plan::does(p, replies, vm::Start::Reap) ==> plan::does(p, replies, vm::Start::Kill)
            &&& plan::does(p, replies, vm::Start::Settle)
                ==> plan::gets(p, replies, vm::Start::AskExited, Reply::Yes)
                || plan::gets(p, replies, vm::Start::AskExited, Reply::Error)
                || plan::does(p, replies, vm::Start::Reap)
            &&& plan::does(p, replies, vm::Start::Preserve)
                ==> plan::does(p, replies, vm::Start::Settle)
            &&& plan::does(p, replies, vm::Start::ReadTail)
                ==> plan::does(p, replies, vm::Start::Preserve)
            &&& end == vm::Start::Started ==> plan::manages(p, replies, vm::Start::ReadMac)
            &&& end == vm::Start::Started ==> plan::manages(p, replies, vm::Start::MakePipe)
            &&& end == vm::Start::Started ==> plan::does(p, replies, vm::Start::OpenLog)
            &&& end == vm::Start::Started ==> plan::manages(p, replies, vm::Start::Spawn)
            &&& end == vm::Start::Failed
                ==> plan::gets(p, replies, vm::Start::MakePipe, Reply::Error)
                || plan::gets(p, replies, vm::Start::Spawn, Reply::Error)
                || plan::does(p, replies, vm::Start::ReadTail)
        }),
{
    let p = vm::Start::MakePipe;
    let end = plan::reached(p, replies);
    assert(plan::does(p, replies, vm::Start::OpenLog) ==> plan::manages(p, replies, vm::Start::MakePipe)) by {
        plan::lemma_way_in(
            p,
            replies,
            |x: vm::Start| x != vm::Start::MakePipe && x != vm::Start::Failed,
            plan::managing(vm::Start::MakePipe),
        );
    }
    assert(plan::does(p, replies, vm::Start::Spawn) ==> plan::does(p, replies, vm::Start::OpenLog)) by {
        plan::lemma_way_in(
            p,
            replies,
            |x: vm::Start|
                x != vm::Start::MakePipe && x != vm::Start::OpenLog && x != vm::Start::Failed,
            plan::doing(vm::Start::OpenLog),
        );
    }
    assert(plan::does(p, replies, vm::Start::ReadMac) ==> plan::manages(p, replies, vm::Start::Spawn)) by {
        plan::lemma_way_in(
            p,
            replies,
            |x: vm::Start|
                x != vm::Start::MakePipe && x != vm::Start::OpenLog && x != vm::Start::Spawn
                    && x != vm::Start::Failed,
            plan::managing(vm::Start::Spawn),
        );
    }
    assert(plan::does(p, replies, vm::Start::AskExited)
        ==> plan::gets(p, replies, vm::Start::ReadMac, Reply::Error)) by {
        plan::lemma_way_in(
            p,
            replies,
            |x: vm::Start|
                x == vm::Start::AskExited || x == vm::Start::Kill || x == vm::Start::Reap
                    || x == vm::Start::Settle || x == vm::Start::Preserve
                    || x == vm::Start::ReadTail,
            plan::getting(vm::Start::ReadMac, Reply::Error),
        );
    }
    assert(plan::does(p, replies, vm::Start::Kill)
        ==> plan::gets(p, replies, vm::Start::AskExited, Reply::No)) by {
        plan::lemma_way_in(
            p,
            replies,
            |x: vm::Start| x == vm::Start::Kill || x == vm::Start::Reap,
            plan::getting(vm::Start::AskExited, Reply::No),
        );
    }
    assert(plan::does(p, replies, vm::Start::Reap) ==> plan::does(p, replies, vm::Start::Kill)) by {
        plan::lemma_way_in(
            p,
            replies,
            |x: vm::Start| x == vm::Start::Reap,
            plan::doing(vm::Start::Kill),
        );
    }
    assert(plan::does(p, replies, vm::Start::Settle)
        ==> plan::gets(p, replies, vm::Start::AskExited, Reply::Yes)
        || plan::gets(p, replies, vm::Start::AskExited, Reply::Error)
        || plan::does(p, replies, vm::Start::Reap)) by {
        plan::lemma_way_in(
            p,
            replies,
            |x: vm::Start|
                x == vm::Start::Settle || x == vm::Start::Preserve || x == vm::Start::ReadTail,
            plan::either(plan::getting(vm::Start::AskExited, Reply::Yes), plan::either(plan::getting(vm::Start::AskExited, Reply::Error), plan::doing(vm::Start::Reap))),
        );
        plan::lemma_either(
            p,
            replies,
            plan::getting(vm::Start::AskExited, Reply::Yes),
            plan::either(plan::getting(vm::Start::AskExited, Reply::Error), plan::doing(vm::Start::Reap)),
        );
        plan::lemma_either(
            p,
            replies,
            plan::getting(vm::Start::AskExited, Reply::Error),
            plan::doing(vm::Start::Reap),
        );
    }
    assert(plan::does(p, replies, vm::Start::Preserve) ==> plan::does(p, replies, vm::Start::Settle)) by {
        plan::lemma_way_in(
            p,
            replies,
            |x: vm::Start| x == vm::Start::Preserve || x == vm::Start::ReadTail,
            plan::doing(vm::Start::Settle),
        );
    }
    assert(plan::does(p, replies, vm::Start::ReadTail) ==> plan::does(p, replies, vm::Start::Preserve)) by {
        plan::lemma_way_in(
            p,
            replies,
            |x: vm::Start| x == vm::Start::ReadTail,
            plan::doing(vm::Start::Preserve),
        );
    }
    assert(end == vm::Start::Started ==> plan::manages(p, replies, vm::Start::ReadMac)) by {
        plan::lemma_way_in(
            p,
            replies,
            |x: vm::Start| x == vm::Start::Started,
            plan::managing(vm::Start::ReadMac),
        );
    }
    assert(end == vm::Start::Started ==> plan::manages(p, replies, vm::Start::MakePipe)) by {
        plan::lemma_way_in(
            p,
            replies,
            |x: vm::Start| x != vm::Start::MakePipe && x != vm::Start::Failed,
            plan::managing(vm::Start::MakePipe),
        );
    }
    assert(end == vm::Start::Started ==> plan::does(p, replies, vm::Start::OpenLog)) by {
        plan::lemma_way_in(
            p,
            replies,
            |x: vm::Start|
                x != vm::Start::MakePipe && x != vm::Start::OpenLog && x != vm::Start::Failed,
            plan::doing(vm::Start::OpenLog),
        );
    }
    assert(end == vm::Start::Started ==> plan::manages(p, replies, vm::Start::Spawn)) by {
        plan::lemma_way_in(
            p,
            replies,
            |x: vm::Start|
                x != vm::Start::MakePipe && x != vm::Start::OpenLog && x != vm::Start::Spawn
                    && x != vm::Start::Failed,
            plan::managing(vm::Start::Spawn),
        );
    }
    assert(end == vm::Start::Failed
        ==> plan::gets(p, replies, vm::Start::MakePipe, Reply::Error)
        || plan::gets(p, replies, vm::Start::Spawn, Reply::Error)
        || plan::does(p, replies, vm::Start::ReadTail)) by {
        plan::lemma_way_in(
            p,
            replies,
            |x: vm::Start| x == vm::Start::Failed,
            plan::either(plan::getting(vm::Start::MakePipe, Reply::Error), plan::either(plan::getting(vm::Start::Spawn, Reply::Error), plan::doing(vm::Start::ReadTail))),
        );
        plan::lemma_either(
            p,
            replies,
            plan::getting(vm::Start::MakePipe, Reply::Error),
            plan::either(plan::getting(vm::Start::Spawn, Reply::Error), plan::doing(vm::Start::ReadTail)),
        );
        plan::lemma_either(
            p,
            replies,
            plan::getting(vm::Start::Spawn, Reply::Error),
            plan::doing(vm::Start::ReadTail),
        );
    }
}

/// A helper is asked to end before it is killed. A phase is done only after the ones
/// it needs, and the work is done only where all of them were.
pub proof fn law_stop_order(replies: Seq<Reply>)
    ensures
        ({
            let p = vm::Stop::RequirePid;
            let end = plan::reached(p, replies);
            &&& !vm::Stop::Stopped.doomed()
            &&& vm::Stop::Failed.doomed()
            &&& plan::does(p, replies, vm::Stop::Terminate)
                ==> plan::manages(p, replies, vm::Stop::RequirePid)
            &&& plan::does(p, replies, vm::Stop::WaitExit)
                ==> plan::gets(p, replies, vm::Stop::Terminate, Reply::Yes)
            &&& plan::does(p, replies, vm::Stop::Kill)
                ==> plan::gets(p, replies, vm::Stop::WaitExit, Reply::No)
                || plan::gets(p, replies, vm::Stop::WaitExit, Reply::Error)
            &&& plan::does(p, replies, vm::Stop::WaitKilled)
                ==> plan::does(p, replies, vm::Stop::Kill)
            &&& end == vm::Stop::Stopped
                ==> plan::gets(p, replies, vm::Stop::Terminate, Reply::No)
                || plan::gets(p, replies, vm::Stop::WaitExit, Reply::Yes)
                || plan::does(p, replies, vm::Stop::WaitKilled)
            &&& end == vm::Stop::Stopped ==> plan::manages(p, replies, vm::Stop::RequirePid)
            &&& end == vm::Stop::Stopped ==> plan::manages(p, replies, vm::Stop::Terminate)
        }),
{
    let p = vm::Stop::RequirePid;
    let end = plan::reached(p, replies);
    assert(plan::does(p, replies, vm::Stop::Terminate)
        ==> plan::manages(p, replies, vm::Stop::RequirePid)) by {
        plan::lemma_way_in(
            p,
            replies,
            |x: vm::Stop| x != vm::Stop::RequirePid && x != vm::Stop::Failed,
            plan::managing(vm::Stop::RequirePid),
        );
    }
    assert(plan::does(p, replies, vm::Stop::WaitExit)
        ==> plan::gets(p, replies, vm::Stop::Terminate, Reply::Yes)) by {
        plan::lemma_way_in(
            p,
            replies,
            |x: vm::Stop|
                x == vm::Stop::WaitExit || x == vm::Stop::Kill || x == vm::Stop::WaitKilled,
            plan::getting(vm::Stop::Terminate, Reply::Yes),
        );
    }
    assert(plan::does(p, replies, vm::Stop::Kill)
        ==> plan::gets(p, replies, vm::Stop::WaitExit, Reply::No)
        || plan::gets(p, replies, vm::Stop::WaitExit, Reply::Error)) by {
        plan::lemma_way_in(
            p,
            replies,
            |x: vm::Stop| x == vm::Stop::Kill || x == vm::Stop::WaitKilled,
            plan::either(plan::getting(vm::Stop::WaitExit, Reply::No), plan::getting(vm::Stop::WaitExit, Reply::Error)),
        );
        plan::lemma_either(
            p,
            replies,
            plan::getting(vm::Stop::WaitExit, Reply::No),
            plan::getting(vm::Stop::WaitExit, Reply::Error),
        );
    }
    assert(plan::does(p, replies, vm::Stop::WaitKilled) ==> plan::does(p, replies, vm::Stop::Kill)) by {
        plan::lemma_way_in(
            p,
            replies,
            |x: vm::Stop| x == vm::Stop::WaitKilled,
            plan::doing(vm::Stop::Kill),
        );
    }
    assert(end == vm::Stop::Stopped
        ==> plan::gets(p, replies, vm::Stop::Terminate, Reply::No)
        || plan::gets(p, replies, vm::Stop::WaitExit, Reply::Yes)
        || plan::does(p, replies, vm::Stop::WaitKilled)) by {
        plan::lemma_way_in(
            p,
            replies,
            |x: vm::Stop| x == vm::Stop::Stopped,
            plan::either(plan::getting(vm::Stop::Terminate, Reply::No), plan::either(plan::getting(vm::Stop::WaitExit, Reply::Yes), plan::doing(vm::Stop::WaitKilled))),
        );
        plan::lemma_either(
            p,
            replies,
            plan::getting(vm::Stop::Terminate, Reply::No),
            plan::either(plan::getting(vm::Stop::WaitExit, Reply::Yes), plan::doing(vm::Stop::WaitKilled)),
        );
        plan::lemma_either(
            p,
            replies,
            plan::getting(vm::Stop::WaitExit, Reply::Yes),
            plan::doing(vm::Stop::WaitKilled),
        );
    }
    assert(end == vm::Stop::Stopped ==> plan::manages(p, replies, vm::Stop::RequirePid)) by {
        plan::lemma_way_in(
            p,
            replies,
            |x: vm::Stop| x != vm::Stop::RequirePid && x != vm::Stop::Failed,
            plan::managing(vm::Stop::RequirePid),
        );
    }
    assert(end == vm::Stop::Stopped ==> plan::manages(p, replies, vm::Stop::Terminate)) by {
        plan::lemma_way_in(
            p,
            replies,
            |x: vm::Stop|
                x != vm::Stop::RequirePid && x != vm::Stop::Terminate && x != vm::Stop::Failed,
            plan::managing(vm::Stop::Terminate),
        );
    }
}

/// A helper is killed and waited for. A phase is done only after the ones it needs,
/// and the work is done only where all of them were.
pub proof fn law_force_stop_order(replies: Seq<Reply>)
    ensures
        ({
            let p = vm::ForceStop::RequirePid;
            let end = plan::reached(p, replies);
            &&& !vm::ForceStop::Stopped.doomed()
            &&& vm::ForceStop::Failed.doomed()
            &&& plan::does(p, replies, vm::ForceStop::Kill)
                ==> plan::manages(p, replies, vm::ForceStop::RequirePid)
            &&& plan::does(p, replies, vm::ForceStop::WaitKilled)
                ==> plan::gets(p, replies, vm::ForceStop::Kill, Reply::Yes)
            &&& end == vm::ForceStop::Stopped
                ==> plan::gets(p, replies, vm::ForceStop::Kill, Reply::No)
                || plan::does(p, replies, vm::ForceStop::WaitKilled)
            &&& end == vm::ForceStop::Stopped ==> plan::manages(p, replies, vm::ForceStop::RequirePid)
            &&& end == vm::ForceStop::Stopped ==> plan::manages(p, replies, vm::ForceStop::Kill)
        }),
{
    let p = vm::ForceStop::RequirePid;
    let end = plan::reached(p, replies);
    assert(plan::does(p, replies, vm::ForceStop::Kill)
        ==> plan::manages(p, replies, vm::ForceStop::RequirePid)) by {
        plan::lemma_way_in(
            p,
            replies,
            |x: vm::ForceStop| x != vm::ForceStop::RequirePid && x != vm::ForceStop::Failed,
            plan::managing(vm::ForceStop::RequirePid),
        );
    }
    assert(plan::does(p, replies, vm::ForceStop::WaitKilled)
        ==> plan::gets(p, replies, vm::ForceStop::Kill, Reply::Yes)) by {
        plan::lemma_way_in(
            p,
            replies,
            |x: vm::ForceStop| x == vm::ForceStop::WaitKilled,
            plan::getting(vm::ForceStop::Kill, Reply::Yes),
        );
    }
    assert(end == vm::ForceStop::Stopped
        ==> plan::gets(p, replies, vm::ForceStop::Kill, Reply::No)
        || plan::does(p, replies, vm::ForceStop::WaitKilled)) by {
        plan::lemma_way_in(
            p,
            replies,
            |x: vm::ForceStop| x == vm::ForceStop::Stopped,
            plan::either(plan::getting(vm::ForceStop::Kill, Reply::No), plan::doing(vm::ForceStop::WaitKilled)),
        );
        plan::lemma_either(
            p,
            replies,
            plan::getting(vm::ForceStop::Kill, Reply::No),
            plan::doing(vm::ForceStop::WaitKilled),
        );
    }
    assert(end == vm::ForceStop::Stopped ==> plan::manages(p, replies, vm::ForceStop::RequirePid)) by {
        plan::lemma_way_in(
            p,
            replies,
            |x: vm::ForceStop| x != vm::ForceStop::RequirePid && x != vm::ForceStop::Failed,
            plan::managing(vm::ForceStop::RequirePid),
        );
    }
    assert(end == vm::ForceStop::Stopped ==> plan::manages(p, replies, vm::ForceStop::Kill)) by {
        plan::lemma_way_in(
            p,
            replies,
            |x: vm::ForceStop|
                x == vm::ForceStop::WaitKilled || x == vm::ForceStop::Stopped,
            plan::managing(vm::ForceStop::Kill),
        );
    }
}

/// The steps that make the work fail: the failure of any other phase is lived with.
pub open spec fn import_faults() -> spec_fn(storage::Import, Reply) -> bool {
    |x: storage::Import, r: Reply|
        r == Reply::Error && (x == storage::Import::MakeDir || x == storage::Import::Copy)
}

/// The work fails in a run that takes one of these steps, and in no other.
pub proof fn law_import_failures(replies: Seq<Reply>)
    ensures
        plan::reached(storage::Import::MakeDir, replies).doomed() <==> plan::went(
            storage::Import::MakeDir,
            replies,
            import_faults(),
        ),
{
    let p = storage::Import::MakeDir;
    plan::lemma_way_in(
        p,
        replies,
        |x: storage::Import| x == storage::Import::Failed,
        import_faults(),
    );
    plan::lemma_stays(
        p,
        replies,
        import_faults(),
        |x: storage::Import| x == storage::Import::Failed,
    );
}

/// The steps that make the work fail.
pub open spec fn clone_faults() -> spec_fn(storage::CloneDisk, Reply) -> bool {
    |x: storage::CloneDisk, r: Reply|
        r == Reply::Error && (x == storage::CloneDisk::RequireSource
            || x == storage::CloneDisk::MakeDir || x == storage::CloneDisk::Clone)
}

/// The work fails in a run that takes one of these steps, and in no other.
pub proof fn law_clone_failures(replies: Seq<Reply>)
    ensures
        plan::reached(storage::CloneDisk::RequireSource, replies).doomed() <==> plan::went(
            storage::CloneDisk::RequireSource,
            replies,
            clone_faults(),
        ),
{
    let p = storage::CloneDisk::RequireSource;
    plan::lemma_way_in(
        p,
        replies,
        |x: storage::CloneDisk| x == storage::CloneDisk::Failed,
        clone_faults(),
    );
    plan::lemma_stays(
        p,
        replies,
        clone_faults(),
        |x: storage::CloneDisk| x == storage::CloneDisk::Failed,
    );
}

/// The steps that make the work fail.
pub open spec fn resize_faults() -> spec_fn(storage::Resize, Reply) -> bool {
    |x: storage::Resize, r: Reply|
        r == Reply::Error && (x == storage::Resize::RequireDisk
            || x == storage::Resize::RequireGrowth || x == storage::Resize::Truncate
            || x == storage::Resize::CheckFilesystem || x == storage::Resize::ExpandFilesystem)
}

/// The work fails in a run that takes one of these steps, and in no other.
pub proof fn law_resize_failures(replies: Seq<Reply>)
    ensures
        plan::reached(storage::Resize::RequireDisk, replies).doomed() <==> plan::went(
            storage::Resize::RequireDisk,
            replies,
            resize_faults(),
        ),
{
    let p = storage::Resize::RequireDisk;
    plan::lemma_way_in(
        p,
        replies,
        |x: storage::Resize| x == storage::Resize::Failed,
        resize_faults(),
    );
    plan::lemma_stays(
        p,
        replies,
        resize_faults(),
        |x: storage::Resize| x == storage::Resize::Failed,
    );
}

/// The steps that make the work fail.
pub open spec fn removal_faults() -> spec_fn(storage::Removal, Reply) -> bool {
    |x: storage::Removal, r: Reply|
        r == Reply::Error && (x == storage::Removal::AskFound || x == storage::Removal::Remove)
}

/// The work fails in a run that takes one of these steps, and in no other.
pub proof fn law_removal_failures(replies: Seq<Reply>)
    ensures
        plan::reached(storage::Removal::AskFound, replies).doomed() <==> plan::went(
            storage::Removal::AskFound,
            replies,
            removal_faults(),
        ),
{
    let p = storage::Removal::AskFound;
    plan::lemma_way_in(
        p,
        replies,
        |x: storage::Removal| x == storage::Removal::Failed,
        removal_faults(),
    );
    plan::lemma_stays(
        p,
        replies,
        removal_faults(),
        |x: storage::Removal| x == storage::Removal::Failed,
    );
}

/// The steps that make the work fail.
pub open spec fn deinit_faults() -> spec_fn(storage::Deinit, Reply) -> bool {
    |x: storage::Deinit, r: Reply|
        r == Reply::Error && (x == storage::Deinit::AskPurge || x == storage::Deinit::AskImages
            || x == storage::Deinit::RemoveImages || x == storage::Deinit::AskVms
            || x == storage::Deinit::RemoveVms)
}

/// The work fails in a run that takes one of these steps, and in no other.
pub proof fn law_deinit_failures(replies: Seq<Reply>)
    ensures
        plan::reached(storage::Deinit::AskPurge, replies).doomed() <==> plan::went(
            storage::Deinit::AskPurge,
            replies,
            deinit_faults(),
        ),
{
    let p = storage::Deinit::AskPurge;
    plan::lemma_way_in(
        p,
        replies,
        |x: storage::Deinit| x == storage::Deinit::Failed,
        deinit_faults(),
    );
    plan::lemma_stays(
        p,
        replies,
        deinit_faults(),
        |x: storage::Deinit| x == storage::Deinit::Failed,
    );
}

/// The steps that make the work fail: the failure of any other phase is lived with.
pub open spec fn inject_key_faults() -> spec_fn(storage::InjectKey, Reply) -> bool {
    |x: storage::InjectKey, r: Reply|
        r == Reply::Error && (x == storage::InjectKey::Stat || x == storage::InjectKey::AskUser
            || x == storage::InjectKey::Canonicalize || x == storage::InjectKey::WriteScript
            || x == storage::InjectKey::RunScript || x == storage::InjectKey::Verify)
}

/// The work fails in a run that takes one of these steps, and in no other.
pub proof fn law_inject_key_failures(replies: Seq<Reply>)
    ensures
        plan::reached(storage::InjectKey::Stat, replies).doomed() <==> plan::went(
            storage::InjectKey::Stat,
            replies,
            inject_key_faults(),
        ),
{
    let p = storage::InjectKey::Stat;
    plan::lemma_way_in(
        p,
        replies,
        |x: storage::InjectKey| x == storage::InjectKey::Failed,
        inject_key_faults(),
    );
    plan::lemma_stays(
        p,
        replies,
        inject_key_faults(),
        |x: storage::InjectKey| x == storage::InjectKey::Failed,
    );
}

/// The steps that make the work fail.
pub open spec fn inject_hostname_faults() -> spec_fn(storage::InjectHostname, Reply) -> bool {
    |x: storage::InjectHostname, r: Reply|
        r == Reply::Error && (x == storage::InjectHostname::WriteHosts
            || x == storage::InjectHostname::WriteScript
            || x == storage::InjectHostname::RunScript)
}

/// The work fails in a run that takes one of these steps, and in no other.
pub proof fn law_inject_hostname_failures(replies: Seq<Reply>)
    ensures
        plan::reached(storage::InjectHostname::WriteHosts, replies).doomed() <==> plan::went(
            storage::InjectHostname::WriteHosts,
            replies,
            inject_hostname_faults(),
        ),
{
    let p = storage::InjectHostname::WriteHosts;
    plan::lemma_way_in(
        p,
        replies,
        |x: storage::InjectHostname| x == storage::InjectHostname::Failed,
        inject_hostname_faults(),
    );
    plan::lemma_stays(
        p,
        replies,
        inject_hostname_faults(),
        |x: storage::InjectHostname| x == storage::InjectHostname::Failed,
    );
}

/// The steps that make the work fail: the failure of any other phase is lived with.
pub open spec fn start_faults() -> spec_fn(vm::Start, Reply) -> bool {
    |x: vm::Start, r: Reply|
        r == Reply::Error && (x == vm::Start::MakePipe || x == vm::Start::Spawn
            || x == vm::Start::ReadMac)
}

/// The work fails in a run that takes one of these steps, and in no other.
pub proof fn law_start_failures(replies: Seq<Reply>)
    ensures
        plan::reached(vm::Start::MakePipe, replies).doomed() <==> plan::went(
            vm::Start::MakePipe,
            replies,
            start_faults(),
        ),
{
    let p = vm::Start::MakePipe;
    plan::lemma_way_in(
        p,
        replies,
        |x: vm::Start|
                x != vm::Start::MakePipe && x != vm::Start::OpenLog && x != vm::Start::Spawn
                    && x != vm::Start::ReadMac && x != vm::Start::Started,
        start_faults(),
    );
    plan::lemma_stays(
        p,
        replies,
        start_faults(),
        |x: vm::Start|
                x != vm::Start::MakePipe && x != vm::Start::OpenLog && x != vm::Start::Spawn
                    && x != vm::Start::ReadMac && x != vm::Start::Started,
    );
}

/// The steps that make the work fail: the failure of any other phase is lived with.
pub open spec fn stop_faults() -> spec_fn(vm::Stop, Reply) -> bool {
    |x: vm::Stop, r: Reply|
        r == Reply::Error && (x == vm::Stop::RequirePid || x == vm::Stop::Terminate)
}

/// The work fails in a run that takes one of these steps, and in no other.
pub proof fn law_stop_failures(replies: Seq<Reply>)
    ensures
        plan::reached(vm::Stop::RequirePid, replies).doomed() <==> plan::went(
            vm::Stop::RequirePid,
            replies,
            stop_faults(),
        ),
{
    let p = vm::Stop::RequirePid;
    plan::lemma_way_in(p, replies, |x: vm::Stop| x == vm::Stop::Failed, stop_faults());
    plan::lemma_stays(p, replies, stop_faults(), |x: vm::Stop| x == vm::Stop::Failed);
}

/// The steps that make the work fail: the failure of any other phase is lived with.
pub open spec fn force_stop_faults() -> spec_fn(vm::ForceStop, Reply) -> bool {
    |x: vm::ForceStop, r: Reply|
        r == Reply::Error && (x == vm::ForceStop::RequirePid || x == vm::ForceStop::Kill)
}

/// The work fails in a run that takes one of these steps, and in no other.
pub proof fn law_force_stop_failures(replies: Seq<Reply>)
    ensures
        plan::reached(vm::ForceStop::RequirePid, replies).doomed() <==> plan::went(
            vm::ForceStop::RequirePid,
            replies,
            force_stop_faults(),
        ),
{
    let p = vm::ForceStop::RequirePid;
    plan::lemma_way_in(
        p,
        replies,
        |x: vm::ForceStop| x == vm::ForceStop::Failed,
        force_stop_faults(),
    );
    plan::lemma_stays(
        p,
        replies,
        force_stop_faults(),
        |x: vm::ForceStop| x == vm::ForceStop::Failed,
    );
}

} // verus!
