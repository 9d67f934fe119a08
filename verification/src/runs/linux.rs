//! The order of work on the VMs of a Linux host and their networks, in every run.
use crate::linux::{vm, vsock};
use crate::network::{backend, tap};
use crate::plan;
use crate::plan::{Plan, Reply};
use vstd::prelude::*;

verus! {

/// A VM is configured once its process runs and its socket is there, on a disk that
/// was opened. A phase is done only after the ones it needs, and the work is done
/// only where all of them were.
pub proof fn law_start_order(replies: Seq<Reply>)
    ensures
        ({
            let p = vm::Start::RequireNetwork;
            let end = plan::reached(p, replies);
            &&& !vm::Start::Started.doomed()
            &&& vm::Start::Failed.doomed()
            &&& plan::does(p, replies, vm::Start::OpenDisk)
                ==> plan::manages(p, replies, vm::Start::RequireNetwork)
            &&& plan::does(p, replies, vm::Start::AskSocket)
                ==> plan::manages(p, replies, vm::Start::OpenDisk)
            &&& plan::does(p, replies, vm::Start::RemoveSocket)
                ==> plan::gets(p, replies, vm::Start::AskSocket, Reply::Yes)
            &&& plan::does(p, replies, vm::Start::AskVsockSocket)
                ==> plan::gets(p, replies, vm::Start::AskSocket, Reply::No)
                || plan::manages(p, replies, vm::Start::RemoveSocket)
            &&& plan::does(p, replies, vm::Start::RemoveVsockSocket)
                ==> plan::gets(p, replies, vm::Start::AskVsockSocket, Reply::Yes)
            &&& plan::does(p, replies, vm::Start::Spawn)
                ==> plan::gets(p, replies, vm::Start::AskVsockSocket, Reply::No)
                || plan::manages(p, replies, vm::Start::RemoveVsockSocket)
            &&& plan::does(p, replies, vm::Start::WaitSocket)
                ==> plan::manages(p, replies, vm::Start::Spawn)
            &&& plan::does(p, replies, vm::Start::MakeRuntime)
                ==> plan::manages(p, replies, vm::Start::WaitSocket)
            &&& plan::does(p, replies, vm::Start::Configure)
                ==> plan::manages(p, replies, vm::Start::MakeRuntime)
            &&& plan::does(p, replies, vm::Start::AskVsock)
                ==> plan::manages(p, replies, vm::Start::Configure)
            &&& plan::does(p, replies, vm::Start::Secure)
                ==> plan::gets(p, replies, vm::Start::AskVsock, Reply::Yes)
            &&& plan::does(p, replies, vm::Start::Kill)
                ==> plan::gets(p, replies, vm::Start::WaitSocket, Reply::Error)
                || plan::gets(p, replies, vm::Start::MakeRuntime, Reply::Error)
                || plan::gets(p, replies, vm::Start::Configure, Reply::Error)
            &&& end == vm::Start::Started
                ==> plan::gets(p, replies, vm::Start::AskVsock, Reply::No)
                || plan::gets(p, replies, vm::Start::AskVsock, Reply::Error)
                || plan::does(p, replies, vm::Start::Secure)
            &&& end == vm::Start::Started ==> plan::manages(p, replies, vm::Start::RequireNetwork)
            &&& end == vm::Start::Started ==> plan::manages(p, replies, vm::Start::OpenDisk)
            &&& end == vm::Start::Started ==> plan::manages(p, replies, vm::Start::AskSocket)
            &&& end == vm::Start::Started ==> plan::manages(p, replies, vm::Start::AskVsockSocket)
            &&& end == vm::Start::Started ==> plan::manages(p, replies, vm::Start::Spawn)
            &&& end == vm::Start::Started ==> plan::manages(p, replies, vm::Start::WaitSocket)
            &&& end == vm::Start::Started ==> plan::manages(p, replies, vm::Start::MakeRuntime)
            &&& end == vm::Start::Started ==> plan::manages(p, replies, vm::Start::Configure)
            &&& end == vm::Start::Started ==> plan::does(p, replies, vm::Start::AskVsock)
            &&& end == vm::Start::Failed
                ==> plan::gets(p, replies, vm::Start::RequireNetwork, Reply::Error)
                || plan::gets(p, replies, vm::Start::OpenDisk, Reply::Error)
                || plan::gets(p, replies, vm::Start::AskSocket, Reply::Error)
                || plan::gets(p, replies, vm::Start::RemoveSocket, Reply::Error)
                || plan::gets(p, replies, vm::Start::AskVsockSocket, Reply::Error)
                || plan::gets(p, replies, vm::Start::RemoveVsockSocket, Reply::Error)
                || plan::gets(p, replies, vm::Start::Spawn, Reply::Error)
                || plan::does(p, replies, vm::Start::Kill)
        }),
{
    let p = vm::Start::RequireNetwork;
    let end = plan::reached(p, replies);
    assert(plan::does(p, replies, vm::Start::OpenDisk)
        ==> plan::manages(p, replies, vm::Start::RequireNetwork)) by {
        plan::lemma_way_in(
            p,
            replies,
            |x: vm::Start| x != vm::Start::RequireNetwork && x != vm::Start::Failed,
            plan::managing(vm::Start::RequireNetwork),
        );
    }
    assert(plan::does(p, replies, vm::Start::AskSocket)
        ==> plan::manages(p, replies, vm::Start::OpenDisk)) by {
        plan::lemma_way_in(
            p,
            replies,
            |x: vm::Start|
                x != vm::Start::RequireNetwork && x != vm::Start::OpenDisk
                    && x != vm::Start::Failed,
            plan::managing(vm::Start::OpenDisk),
        );
    }
    assert(plan::does(p, replies, vm::Start::RemoveSocket)
        ==> plan::gets(p, replies, vm::Start::AskSocket, Reply::Yes)) by {
        plan::lemma_way_in(
            p,
            replies,
            |x: vm::Start| x == vm::Start::RemoveSocket,
            plan::getting(vm::Start::AskSocket, Reply::Yes),
        );
    }
    assert(plan::does(p, replies, vm::Start::AskVsockSocket)
        ==> plan::gets(p, replies, vm::Start::AskSocket, Reply::No)
        || plan::manages(p, replies, vm::Start::RemoveSocket)) by {
        plan::lemma_way_in(
            p,
            replies,
            |x: vm::Start|
                x != vm::Start::RequireNetwork && x != vm::Start::OpenDisk
                    && x != vm::Start::AskSocket && x != vm::Start::RemoveSocket
                    && x != vm::Start::Failed,
            plan::either(plan::getting(vm::Start::AskSocket, Reply::No), plan::managing(vm::Start::RemoveSocket)),
        );
        plan::lemma_either(
            p,
            replies,
            plan::getting(vm::Start::AskSocket, Reply::No),
            plan::managing(vm::Start::RemoveSocket),
        );
    }
    assert(plan::does(p, replies, vm::Start::RemoveVsockSocket)
        ==> plan::gets(p, replies, vm::Start::AskVsockSocket, Reply::Yes)) by {
        plan::lemma_way_in(
            p,
            replies,
            |x: vm::Start| x == vm::Start::RemoveVsockSocket,
            plan::getting(vm::Start::AskVsockSocket, Reply::Yes),
        );
    }
    assert(plan::does(p, replies, vm::Start::Spawn)
        ==> plan::gets(p, replies, vm::Start::AskVsockSocket, Reply::No)
        || plan::manages(p, replies, vm::Start::RemoveVsockSocket)) by {
        plan::lemma_way_in(
            p,
            replies,
            |x: vm::Start|
                x != vm::Start::RequireNetwork && x != vm::Start::OpenDisk
                    && x != vm::Start::AskSocket && x != vm::Start::RemoveSocket
                    && x != vm::Start::AskVsockSocket && x != vm::Start::RemoveVsockSocket
                    && x != vm::Start::Failed,
            plan::either(plan::getting(vm::Start::AskVsockSocket, Reply::No), plan::managing(vm::Start::RemoveVsockSocket)),
        );
        plan::lemma_either(
            p,
            replies,
            plan::getting(vm::Start::AskVsockSocket, Reply::No),
            plan::managing(vm::Start::RemoveVsockSocket),
        );
    }
    assert(plan::does(p, replies, vm::Start::WaitSocket) ==> plan::manages(p, replies, vm::Start::Spawn)) by {
        plan::lemma_way_in(
            p,
            replies,
            |x: vm::Start|
                x == vm::Start::WaitSocket || x == vm::Start::MakeRuntime
                    || x == vm::Start::Configure || x == vm::Start::AskVsock
                    || x == vm::Start::Secure || x == vm::Start::Kill || x == vm::Start::Started,
            plan::managing(vm::Start::Spawn),
        );
    }
    assert(plan::does(p, replies, vm::Start::MakeRuntime)
        ==> plan::manages(p, replies, vm::Start::WaitSocket)) by {
        plan::lemma_way_in(
            p,
            replies,
            |x: vm::Start|
                x == vm::Start::MakeRuntime || x == vm::Start::Configure
                    || x == vm::Start::AskVsock || x == vm::Start::Secure
                    || x == vm::Start::Started,
            plan::managing(vm::Start::WaitSocket),
        );
    }
    assert(plan::does(p, replies, vm::Start::Configure)
        ==> plan::manages(p, replies, vm::Start::MakeRuntime)) by {
        plan::lemma_way_in(
            p,
            replies,
            |x: vm::Start|
                x == vm::Start::Configure || x == vm::Start::AskVsock || x == vm::Start::Secure
                    || x == vm::Start::Started,
            plan::managing(vm::Start::MakeRuntime),
        );
    }
    assert(plan::does(p, replies, vm::Start::AskVsock)
        ==> plan::manages(p, replies, vm::Start::Configure)) by {
        plan::lemma_way_in(
            p,
            replies,
            |x: vm::Start|
                x == vm::Start::AskVsock || x == vm::Start::Secure || x == vm::Start::Started,
            plan::managing(vm::Start::Configure),
        );
    }
    assert(plan::does(p, replies, vm::Start::Secure)
        ==> plan::gets(p, replies, vm::Start::AskVsock, Reply::Yes)) by {
        plan::lemma_way_in(
            p,
            replies,
            |x: vm::Start| x == vm::Start::Secure,
            plan::getting(vm::Start::AskVsock, Reply::Yes),
        );
    }
    assert(plan::does(p, replies, vm::Start::Kill)
        ==> plan::gets(p, replies, vm::Start::WaitSocket, Reply::Error)
        || plan::gets(p, replies, vm::Start::MakeRuntime, Reply::Error)
        || plan::gets(p, replies, vm::Start::Configure, Reply::Error)) by {
        plan::lemma_way_in(
            p,
            replies,
            |x: vm::Start| x == vm::Start::Kill,
            plan::either(plan::getting(vm::Start::WaitSocket, Reply::Error), plan::either(plan::getting(vm::Start::MakeRuntime, Reply::Error), plan::getting(vm::Start::Configure, Reply::Error))),
        );
        plan::lemma_either(
            p,
            replies,
            plan::getting(vm::Start::WaitSocket, Reply::Error),
            plan::either(plan::getting(vm::Start::MakeRuntime, Reply::Error), plan::getting(vm::Start::Configure, Reply::Error)),
        );
        plan::lemma_either(
            p,
            replies,
            plan::getting(vm::Start::MakeRuntime, Reply::Error),
            plan::getting(vm::Start::Configure, Reply::Error),
        );
    }
    assert(end == vm::Start::Started
        ==> plan::gets(p, replies, vm::Start::AskVsock, Reply::No)
        || plan::gets(p, replies, vm::Start::AskVsock, Reply::Error)
        || plan::does(p, replies, vm::Start::Secure)) by {
        plan::lemma_way_in(
            p,
            replies,
            |x: vm::Start| x == vm::Start::Started,
            plan::either(plan::getting(vm::Start::AskVsock, Reply::No), plan::either(plan::getting(vm::Start::AskVsock, Reply::Error), plan::doing(vm::Start::Secure))),
        );
        plan::lemma_either(
            p,
            replies,
            plan::getting(vm::Start::AskVsock, Reply::No),
            plan::either(plan::getting(vm::Start::AskVsock, Reply::Error), plan::doing(vm::Start::Secure)),
        );
        plan::lemma_either(
            p,
            replies,
            plan::getting(vm::Start::AskVsock, Reply::Error),
            plan::doing(vm::Start::Secure),
        );
    }
    assert(end == vm::Start::Started ==> plan::manages(p, replies, vm::Start::RequireNetwork)) by {
        plan::lemma_way_in(
            p,
            replies,
            |x: vm::Start| x != vm::Start::RequireNetwork && x != vm::Start::Failed,
            plan::managing(vm::Start::RequireNetwork),
        );
    }
    assert(end == vm::Start::Started ==> plan::manages(p, replies, vm::Start::OpenDisk)) by {
        plan::lemma_way_in(
            p,
            replies,
            |x: vm::Start|
                x != vm::Start::RequireNetwork && x != vm::Start::OpenDisk
                    && x != vm::Start::Failed,
            plan::managing(vm::Start::OpenDisk),
        );
    }
    assert(end == vm::Start::Started ==> plan::manages(p, replies, vm::Start::AskSocket)) by {
        plan::lemma_way_in(
            p,
            replies,
            |x: vm::Start|
                x != vm::Start::RequireNetwork && x != vm::Start::OpenDisk
                    && x != vm::Start::AskSocket && x != vm::Start::Failed,
            plan::managing(vm::Start::AskSocket),
        );
    }
    assert(end == vm::Start::Started ==> plan::manages(p, replies, vm::Start::AskVsockSocket)) by {
        plan::lemma_way_in(
            p,
            replies,
            |x: vm::Start|
                x != vm::Start::RequireNetwork && x != vm::Start::OpenDisk
                    && x != vm::Start::AskSocket && x != vm::Start::RemoveSocket
                    && x != vm::Start::AskVsockSocket && x != vm::Start::Failed,
            plan::managing(vm::Start::AskVsockSocket),
        );
    }
    assert(end == vm::Start::Started ==> plan::manages(p, replies, vm::Start::Spawn)) by {
        plan::lemma_way_in(
            p,
            replies,
            |x: vm::Start|
                x == vm::Start::WaitSocket || x == vm::Start::MakeRuntime
                    || x == vm::Start::Configure || x == vm::Start::AskVsock
                    || x == vm::Start::Secure || x == vm::Start::Kill || x == vm::Start::Started,
            plan::managing(vm::Start::Spawn),
        );
    }
    assert(end == vm::Start::Started ==> plan::manages(p, replies, vm::Start::WaitSocket)) by {
        plan::lemma_way_in(
            p,
            replies,
            |x: vm::Start|
                x == vm::Start::MakeRuntime || x == vm::Start::Configure
                    || x == vm::Start::AskVsock || x == vm::Start::Secure
                    || x == vm::Start::Started,
            plan::managing(vm::Start::WaitSocket),
        );
    }
    assert(end == vm::Start::Started ==> plan::manages(p, replies, vm::Start::MakeRuntime)) by {
        plan::lemma_way_in(
            p,
            replies,
            |x: vm::Start|
                x == vm::Start::Configure || x == vm::Start::AskVsock || x == vm::Start::Secure
                    || x == vm::Start::Started,
            plan::managing(vm::Start::MakeRuntime),
        );
    }
    assert(end == vm::Start::Started ==> plan::manages(p, replies, vm::Start::Configure)) by {
        plan::lemma_way_in(
            p,
            replies,
            |x: vm::Start|
                x == vm::Start::AskVsock || x == vm::Start::Secure || x == vm::Start::Started,
            plan::managing(vm::Start::Configure),
        );
    }
    assert(end == vm::Start::Started ==> plan::does(p, replies, vm::Start::AskVsock)) by {
        plan::lemma_way_in(
            p,
            replies,
            |x: vm::Start| x == vm::Start::Secure || x == vm::Start::Started,
            plan::doing(vm::Start::AskVsock),
        );
    }
    assert(end == vm::Start::Failed
        ==> plan::gets(p, replies, vm::Start::RequireNetwork, Reply::Error)
        || plan::gets(p, replies, vm::Start::OpenDisk, Reply::Error)
        || plan::gets(p, replies, vm::Start::AskSocket, Reply::Error)
        || plan::gets(p, replies, vm::Start::RemoveSocket, Reply::Error)
        || plan::gets(p, replies, vm::Start::AskVsockSocket, Reply::Error)
        || plan::gets(p, replies, vm::Start::RemoveVsockSocket, Reply::Error)
        || plan::gets(p, replies, vm::Start::Spawn, Reply::Error)
        || plan::does(p, replies, vm::Start::Kill)) by {
        plan::lemma_way_in(
            p,
            replies,
            |x: vm::Start| x == vm::Start::Failed,
            plan::either(plan::getting(vm::Start::RequireNetwork, Reply::Error), plan::either(plan::getting(vm::Start::OpenDisk, Reply::Error), plan::either(plan::getting(vm::Start::AskSocket, Reply::Error), plan::either(plan::getting(vm::Start::RemoveSocket, Reply::Error), plan::either(plan::getting(vm::Start::AskVsockSocket, Reply::Error), plan::either(plan::getting(vm::Start::RemoveVsockSocket, Reply::Error), plan::either(plan::getting(vm::Start::Spawn, Reply::Error), plan::doing(vm::Start::Kill)))))))),
        );
        plan::lemma_either(
            p,
            replies,
            plan::getting(vm::Start::RequireNetwork, Reply::Error),
            plan::either(plan::getting(vm::Start::OpenDisk, Reply::Error), plan::either(plan::getting(vm::Start::AskSocket, Reply::Error), plan::either(plan::getting(vm::Start::RemoveSocket, Reply::Error), plan::either(plan::getting(vm::Start::AskVsockSocket, Reply::Error), plan::either(plan::getting(vm::Start::RemoveVsockSocket, Reply::Error), plan::either(plan::getting(vm::Start::Spawn, Reply::Error), plan::doing(vm::Start::Kill))))))),
        );
        plan::lemma_either(
            p,
            replies,
            plan::getting(vm::Start::OpenDisk, Reply::Error),
            plan::either(plan::getting(vm::Start::AskSocket, Reply::Error), plan::either(plan::getting(vm::Start::RemoveSocket, Reply::Error), plan::either(plan::getting(vm::Start::AskVsockSocket, Reply::Error), plan::either(plan::getting(vm::Start::RemoveVsockSocket, Reply::Error), plan::either(plan::getting(vm::Start::Spawn, Reply::Error), plan::doing(vm::Start::Kill)))))),
        );
        plan::lemma_either(
            p,
            replies,
            plan::getting(vm::Start::AskSocket, Reply::Error),
            plan::either(plan::getting(vm::Start::RemoveSocket, Reply::Error), plan::either(plan::getting(vm::Start::AskVsockSocket, Reply::Error), plan::either(plan::getting(vm::Start::RemoveVsockSocket, Reply::Error), plan::either(plan::getting(vm::Start::Spawn, Reply::Error), plan::doing(vm::Start::Kill))))),
        );
        plan::lemma_either(
            p,
            replies,
            plan::getting(vm::Start::RemoveSocket, Reply::Error),
            plan::either(plan::getting(vm::Start::AskVsockSocket, Reply::Error), plan::either(plan::getting(vm::Start::RemoveVsockSocket, Reply::Error), plan::either(plan::getting(vm::Start::Spawn, Reply::Error), plan::doing(vm::Start::Kill)))),
        );
        plan::lemma_either(
            p,
            replies,
            plan::getting(vm::Start::AskVsockSocket, Reply::Error),
            plan::either(plan::getting(vm::Start::RemoveVsockSocket, Reply::Error), plan::either(plan::getting(vm::Start::Spawn, Reply::Error), plan::doing(vm::Start::Kill))),
        );
        plan::lemma_either(
            p,
            replies,
            plan::getting(vm::Start::RemoveVsockSocket, Reply::Error),
            plan::either(plan::getting(vm::Start::Spawn, Reply::Error), plan::doing(vm::Start::Kill)),
        );
        plan::lemma_either(
            p,
            replies,
            plan::getting(vm::Start::Spawn, Reply::Error),
            plan::doing(vm::Start::Kill),
        );
    }
}

/// A VM is asked to shut down before it is killed, and its socket is removed at the
/// end. A phase is done only after the ones it needs, and the work is done only where
/// all of them were.
pub proof fn law_stop_order(replies: Seq<Reply>)
    ensures
        ({
            let p = vm::Stop::RequirePid;
            let end = plan::reached(p, replies);
            &&& !vm::Stop::Stopped.doomed()
            &&& vm::Stop::Failed.doomed()
            &&& plan::does(p, replies, vm::Stop::AskAlive)
                ==> plan::manages(p, replies, vm::Stop::RequirePid)
            &&& plan::does(p, replies, vm::Stop::MakeRuntime)
                ==> plan::gets(p, replies, vm::Stop::AskAlive, Reply::Yes)
            &&& plan::does(p, replies, vm::Stop::SshReboot)
                ==> plan::manages(p, replies, vm::Stop::MakeRuntime)
            &&& plan::does(p, replies, vm::Stop::CtrlAltDel)
                ==> plan::gets(p, replies, vm::Stop::SshReboot, Reply::No)
                || plan::gets(p, replies, vm::Stop::SshReboot, Reply::Error)
            &&& plan::does(p, replies, vm::Stop::WaitExit)
                ==> plan::gets(p, replies, vm::Stop::SshReboot, Reply::Yes)
                || plan::does(p, replies, vm::Stop::CtrlAltDel)
            &&& plan::does(p, replies, vm::Stop::Kill)
                ==> plan::gets(p, replies, vm::Stop::WaitExit, Reply::No)
                || plan::gets(p, replies, vm::Stop::WaitExit, Reply::Error)
            &&& plan::does(p, replies, vm::Stop::WaitKilled)
                ==> plan::manages(p, replies, vm::Stop::Kill)
            &&& plan::does(p, replies, vm::Stop::RemoveSocket)
                ==> plan::gets(p, replies, vm::Stop::AskAlive, Reply::No)
                || plan::gets(p, replies, vm::Stop::WaitExit, Reply::Yes)
                || plan::does(p, replies, vm::Stop::WaitKilled)
            &&& end == vm::Stop::Stopped ==> plan::does(p, replies, vm::Stop::RemoveSocket)
            &&& end == vm::Stop::Stopped ==> plan::manages(p, replies, vm::Stop::RequirePid)
            &&& end == vm::Stop::Stopped ==> plan::manages(p, replies, vm::Stop::AskAlive)
        }),
{
    let p = vm::Stop::RequirePid;
    let end = plan::reached(p, replies);
    assert(plan::does(p, replies, vm::Stop::AskAlive) ==> plan::manages(p, replies, vm::Stop::RequirePid)) by {
        plan::lemma_way_in(
            p,
            replies,
            |x: vm::Stop| x != vm::Stop::RequirePid && x != vm::Stop::Failed,
            plan::managing(vm::Stop::RequirePid),
        );
    }
    assert(plan::does(p, replies, vm::Stop::MakeRuntime)
        ==> plan::gets(p, replies, vm::Stop::AskAlive, Reply::Yes)) by {
        plan::lemma_way_in(
            p,
            replies,
            |x: vm::Stop|
                x != vm::Stop::RequirePid && x != vm::Stop::AskAlive
                    && x != vm::Stop::RemoveSocket && x != vm::Stop::Stopped
                    && x != vm::Stop::Failed,
            plan::getting(vm::Stop::AskAlive, Reply::Yes),
        );
    }
    assert(plan::does(p, replies, vm::Stop::SshReboot)
        ==> plan::manages(p, replies, vm::Stop::MakeRuntime)) by {
        plan::lemma_way_in(
            p,
            replies,
            |x: vm::Stop|
                x == vm::Stop::SshReboot || x == vm::Stop::CtrlAltDel || x == vm::Stop::WaitExit
                    || x == vm::Stop::Kill || x == vm::Stop::WaitKilled,
            plan::managing(vm::Stop::MakeRuntime),
        );
    }
    assert(plan::does(p, replies, vm::Stop::CtrlAltDel)
        ==> plan::gets(p, replies, vm::Stop::SshReboot, Reply::No)
        || plan::gets(p, replies, vm::Stop::SshReboot, Reply::Error)) by {
        plan::lemma_way_in(
            p,
            replies,
            |x: vm::Stop| x == vm::Stop::CtrlAltDel,
            plan::either(plan::getting(vm::Stop::SshReboot, Reply::No), plan::getting(vm::Stop::SshReboot, Reply::Error)),
        );
        plan::lemma_either(
            p,
            replies,
            plan::getting(vm::Stop::SshReboot, Reply::No),
            plan::getting(vm::Stop::SshReboot, Reply::Error),
        );
    }
    assert(plan::does(p, replies, vm::Stop::WaitExit)
        ==> plan::gets(p, replies, vm::Stop::SshReboot, Reply::Yes)
        || plan::does(p, replies, vm::Stop::CtrlAltDel)) by {
        plan::lemma_way_in(
            p,
            replies,
            |x: vm::Stop|
                x == vm::Stop::WaitExit || x == vm::Stop::Kill || x == vm::Stop::WaitKilled,
            plan::either(plan::getting(vm::Stop::SshReboot, Reply::Yes), plan::doing(vm::Stop::CtrlAltDel)),
        );
        plan::lemma_either(
            p,
            replies,
            plan::getting(vm::Stop::SshReboot, Reply::Yes),
            plan::doing(vm::Stop::CtrlAltDel),
        );
    }
    assert(plan::does(p, replies, vm::Stop::Kill)
        ==> plan::gets(p, replies, vm::Stop::WaitExit, Reply::No)
        || plan::gets(p, replies, vm::Stop::WaitExit, Reply::Error)) by {
        plan::lemma_way_in(
            p,
            replies,
            |x: vm::Stop| x == vm::Stop::Kill || x == vm::Stop::WaitKilled,
            plan::either(plan::getting(vm::Stop::WaitExit, Reply::No), plan::getting(vm::Stop::WaitExit, Reply::Error)),
        );
        plan::lemma_either(
            p,
            replies,
            plan::getting(vm::Stop::WaitExit, Reply::No),
            plan::getting(vm::Stop::WaitExit, Reply::Error),
        );
    }
    assert(plan::does(p, replies, vm::Stop::WaitKilled) ==> plan::manages(p, replies, vm::Stop::Kill)) by {
        plan::lemma_way_in(
            p,
            replies,
            |x: vm::Stop| x == vm::Stop::WaitKilled,
            plan::managing(vm::Stop::Kill),
        );
    }
    assert(plan::does(p, replies, vm::Stop::RemoveSocket)
        ==> plan::gets(p, replies, vm::Stop::AskAlive, Reply::No)
        || plan::gets(p, replies, vm::Stop::WaitExit, Reply::Yes)
        || plan::does(p, replies, vm::Stop::WaitKilled)) by {
        plan::lemma_way_in(
            p,
            replies,
            |x: vm::Stop| x == vm::Stop::RemoveSocket || x == vm::Stop::Stopped,
            plan::either(plan::getting(vm::Stop::AskAlive, Reply::No), plan::either(plan::getting(vm::Stop::WaitExit, Reply::Yes), plan::doing(vm::Stop::WaitKilled))),
        );
        plan::lemma_either(
            p,
            replies,
            plan::getting(vm::Stop::AskAlive, Reply::No),
            plan::either(plan::getting(vm::Stop::WaitExit, Reply::Yes), plan::doing(vm::Stop::WaitKilled)),
        );
        plan::lemma_either(
            p,
            replies,
            plan::getting(vm::Stop::WaitExit, Reply::Yes),
            plan::doing(vm::Stop::WaitKilled),
        );
    }
    assert(end == vm::Stop::Stopped ==> plan::does(p, replies, vm::Stop::RemoveSocket)) by {
        plan::lemma_way_in(
            p,
            replies,
            |x: vm::Stop| x == vm::Stop::Stopped,
            plan::doing(vm::Stop::RemoveSocket),
        );
    }
    assert(end == vm::Stop::Stopped ==> plan::manages(p, replies, vm::Stop::RequirePid)) by {
        plan::lemma_way_in(
            p,
            replies,
            |x: vm::Stop| x != vm::Stop::RequirePid && x != vm::Stop::Failed,
            plan::managing(vm::Stop::RequirePid),
        );
    }
    assert(end == vm::Stop::Stopped ==> plan::manages(p, replies, vm::Stop::AskAlive)) by {
        plan::lemma_way_in(
            p,
            replies,
            |x: vm::Stop|
                x != vm::Stop::RequirePid && x != vm::Stop::AskAlive && x != vm::Stop::Failed,
            plan::managing(vm::Stop::AskAlive),
        );
    }
}

/// A VM is killed, waited for and rid of its socket. A phase is done only after the
/// ones it needs, and the work is done only where all of them were.
pub proof fn law_force_stop_order(replies: Seq<Reply>)
    ensures
        ({
            let p = vm::ForceStop::RequirePid;
            let end = plan::reached(p, replies);
            &&& !vm::ForceStop::Stopped.doomed()
            &&& vm::ForceStop::Failed.doomed()
            &&& plan::does(p, replies, vm::ForceStop::Kill)
                ==> plan::manages(p, replies, vm::ForceStop::RequirePid)
            &&& plan::does(p, replies, vm::ForceStop::WaitKilled)
                ==> plan::manages(p, replies, vm::ForceStop::Kill)
            &&& plan::does(p, replies, vm::ForceStop::RemoveSocket)
                ==> plan::does(p, replies, vm::ForceStop::WaitKilled)
            &&& end == vm::ForceStop::Stopped ==> plan::does(p, replies, vm::ForceStop::RemoveSocket)
            &&& end == vm::ForceStop::Stopped ==> plan::manages(p, replies, vm::ForceStop::RequirePid)
            &&& end == vm::ForceStop::Stopped ==> plan::manages(p, replies, vm::ForceStop::Kill)
            &&& end == vm::ForceStop::Stopped ==> plan::does(p, replies, vm::ForceStop::WaitKilled)
        }),
{
    let p = vm::ForceStop::RequirePid;
    let end = plan::reached(p, replies);
    assert(plan::does(p, replies, vm::ForceStop::Kill)
        ==> plan::manages(p, replies, vm::ForceStop::RequirePid)) by {
        plan::lemma_way_in(
            p,
            replies,
            |x: vm::ForceStop| x != vm::ForceStop::RequirePid && x != vm::ForceStop::Failed,
            plan::managing(vm::ForceStop::RequirePid),
        );
    }
    assert(plan::does(p, replies, vm::ForceStop::WaitKilled)
        ==> plan::manages(p, replies, vm::ForceStop::Kill)) by {
        plan::lemma_way_in(
            p,
            replies,
            |x: vm::ForceStop|
                x == vm::ForceStop::WaitKilled || x == vm::ForceStop::RemoveSocket
                    || x == vm::ForceStop::Stopped,
            plan::managing(vm::ForceStop::Kill),
        );
    }
    assert(plan::does(p, replies, vm::ForceStop::RemoveSocket)
        ==> plan::does(p, replies, vm::ForceStop::WaitKilled)) by {
        plan::lemma_way_in(
            p,
            replies,
            |x: vm::ForceStop|
                x == vm::ForceStop::RemoveSocket || x == vm::ForceStop::Stopped,
            plan::doing(vm::ForceStop::WaitKilled),
        );
    }
    assert(end == vm::ForceStop::Stopped ==> plan::does(p, replies, vm::ForceStop::RemoveSocket)) by {
        plan::lemma_way_in(
            p,
            replies,
            |x: vm::ForceStop| x == vm::ForceStop::Stopped,
            plan::doing(vm::ForceStop::RemoveSocket),
        );
    }
    assert(end == vm::ForceStop::Stopped ==> plan::manages(p, replies, vm::ForceStop::RequirePid)) by {
        plan::lemma_way_in(
            p,
            replies,
            |x: vm::ForceStop| x != vm::ForceStop::RequirePid && x != vm::ForceStop::Failed,
            plan::managing(vm::ForceStop::RequirePid),
        );
    }
    assert(end == vm::ForceStop::Stopped ==> plan::manages(p, replies, vm::ForceStop::Kill)) by {
        plan::lemma_way_in(
            p,
            replies,
            |x: vm::ForceStop|
                x == vm::ForceStop::WaitKilled || x == vm::ForceStop::RemoveSocket
                    || x == vm::ForceStop::Stopped,
            plan::managing(vm::ForceStop::Kill),
        );
    }
    assert(end == vm::ForceStop::Stopped ==> plan::does(p, replies, vm::ForceStop::WaitKilled)) by {
        plan::lemma_way_in(
            p,
            replies,
            |x: vm::ForceStop|
                x == vm::ForceStop::RemoveSocket || x == vm::ForceStop::Stopped,
            plan::doing(vm::ForceStop::WaitKilled),
        );
    }
}

/// A socket is narrowed to its owner before it is handed over. A phase is done only
/// after the ones it needs, and the work is done only where all of them were.
pub proof fn law_secure_order(replies: Seq<Reply>)
    ensures
        ({
            let p = vsock::Secure::Wait;
            let end = plan::reached(p, replies);
            &&& !vsock::Secure::Done.doomed()
            &&& vsock::Secure::Failed.doomed()
            &&& plan::does(p, replies, vsock::Secure::Narrow)
                ==> plan::manages(p, replies, vsock::Secure::Wait)
            &&& plan::does(p, replies, vsock::Secure::AskUser)
                ==> plan::manages(p, replies, vsock::Secure::Narrow)
            &&& plan::does(p, replies, vsock::Secure::Chown)
                ==> plan::gets(p, replies, vsock::Secure::AskUser, Reply::Yes)
            &&& plan::does(p, replies, vsock::Secure::AskParent)
                ==> plan::manages(p, replies, vsock::Secure::Chown)
            &&& plan::does(p, replies, vsock::Secure::OpenDir)
                ==> plan::gets(p, replies, vsock::Secure::AskParent, Reply::Yes)
            &&& end == vsock::Secure::Done
                ==> plan::gets(p, replies, vsock::Secure::AskUser, Reply::No)
                || plan::gets(p, replies, vsock::Secure::AskParent, Reply::No)
                || plan::manages(p, replies, vsock::Secure::OpenDir)
            &&& end == vsock::Secure::Done ==> plan::manages(p, replies, vsock::Secure::Wait)
            &&& end == vsock::Secure::Done ==> plan::manages(p, replies, vsock::Secure::Narrow)
            &&& end == vsock::Secure::Done ==> plan::manages(p, replies, vsock::Secure::AskUser)
        }),
{
    let p = vsock::Secure::Wait;
    let end = plan::reached(p, replies);
    assert(plan::does(p, replies, vsock::Secure::Narrow)
        ==> plan::manages(p, replies, vsock::Secure::Wait)) by {
        plan::lemma_way_in(
            p,
            replies,
            |x: vsock::Secure| x != vsock::Secure::Wait && x != vsock::Secure::Failed,
            plan::managing(vsock::Secure::Wait),
        );
    }
    assert(plan::does(p, replies, vsock::Secure::AskUser)
        ==> plan::manages(p, replies, vsock::Secure::Narrow)) by {
        plan::lemma_way_in(
            p,
            replies,
            |x: vsock::Secure|
                x != vsock::Secure::Wait && x != vsock::Secure::Narrow
                    && x != vsock::Secure::Failed,
            plan::managing(vsock::Secure::Narrow),
        );
    }
    assert(plan::does(p, replies, vsock::Secure::Chown)
        ==> plan::gets(p, replies, vsock::Secure::AskUser, Reply::Yes)) by {
        plan::lemma_way_in(
            p,
            replies,
            |x: vsock::Secure|
                x == vsock::Secure::Chown || x == vsock::Secure::AskParent
                    || x == vsock::Secure::OpenDir,
            plan::getting(vsock::Secure::AskUser, Reply::Yes),
        );
    }
    assert(plan::does(p, replies, vsock::Secure::AskParent)
        ==> plan::manages(p, replies, vsock::Secure::Chown)) by {
        plan::lemma_way_in(
            p,
            replies,
            |x: vsock::Secure| x == vsock::Secure::AskParent || x == vsock::Secure::OpenDir,
            plan::managing(vsock::Secure::Chown),
        );
    }
    assert(plan::does(p, replies, vsock::Secure::OpenDir)
        ==> plan::gets(p, replies, vsock::Secure::AskParent, Reply::Yes)) by {
        plan::lemma_way_in(
            p,
            replies,
            |x: vsock::Secure| x == vsock::Secure::OpenDir,
            plan::getting(vsock::Secure::AskParent, Reply::Yes),
        );
    }
    assert(end == vsock::Secure::Done
        ==> plan::gets(p, replies, vsock::Secure::AskUser, Reply::No)
        || plan::gets(p, replies, vsock::Secure::AskParent, Reply::No)
        || plan::manages(p, replies, vsock::Secure::OpenDir)) by {
        plan::lemma_way_in(
            p,
            replies,
            |x: vsock::Secure| x == vsock::Secure::Done,
            plan::either(plan::getting(vsock::Secure::AskUser, Reply::No), plan::either(plan::getting(vsock::Secure::AskParent, Reply::No), plan::managing(vsock::Secure::OpenDir))),
        );
        plan::lemma_either(
            p,
            replies,
            plan::getting(vsock::Secure::AskUser, Reply::No),
            plan::either(plan::getting(vsock::Secure::AskParent, Reply::No), plan::managing(vsock::Secure::OpenDir)),
        );
        plan::lemma_either(
            p,
            replies,
            plan::getting(vsock::Secure::AskParent, Reply::No),
            plan::managing(vsock::Secure::OpenDir),
        );
    }
    assert(end == vsock::Secure::Done ==> plan::manages(p, replies, vsock::Secure::Wait)) by {
        plan::lemma_way_in(
            p,
            replies,
            |x: vsock::Secure| x != vsock::Secure::Wait && x != vsock::Secure::Failed,
            plan::managing(vsock::Secure::Wait),
        );
    }
    assert(end == vsock::Secure::Done ==> plan::manages(p, replies, vsock::Secure::Narrow)) by {
        plan::lemma_way_in(
            p,
            replies,
            |x: vsock::Secure|
                x != vsock::Secure::Wait && x != vsock::Secure::Narrow
                    && x != vsock::Secure::Failed,
            plan::managing(vsock::Secure::Narrow),
        );
    }
    assert(end == vsock::Secure::Done ==> plan::manages(p, replies, vsock::Secure::AskUser)) by {
        plan::lemma_way_in(
            p,
            replies,
            |x: vsock::Secure|
                x == vsock::Secure::Chown || x == vsock::Secure::AskParent
                    || x == vsock::Secure::OpenDir || x == vsock::Secure::Done,
            plan::managing(vsock::Secure::AskUser),
        );
    }
}

/// A VM has an address before it has a device, and a device before it has rules. A
/// phase is done only after the ones it needs, and the work is done only where all of
/// them were.
pub proof fn law_setup_order(replies: Seq<Reply>)
    ensures
        ({
            let p = backend::Setup::FindWan;
            let end = plan::reached(p, replies);
            &&& !backend::Setup::Done.doomed()
            &&& backend::Setup::Failed.doomed()
            &&& plan::does(p, replies, backend::Setup::DetectWan)
                ==> plan::gets(p, replies, backend::Setup::FindWan, Reply::No)
            &&& plan::does(p, replies, backend::Setup::Allocate)
                ==> plan::gets(p, replies, backend::Setup::FindWan, Reply::Yes)
                || plan::manages(p, replies, backend::Setup::DetectWan)
            &&& plan::does(p, replies, backend::Setup::CreateTap)
                ==> plan::manages(p, replies, backend::Setup::Allocate)
            &&& plan::does(p, replies, backend::Setup::Forward)
                ==> plan::manages(p, replies, backend::Setup::CreateTap)
            &&& plan::does(p, replies, backend::Setup::AddRules)
                ==> plan::manages(p, replies, backend::Setup::Forward)
            &&& plan::does(p, replies, backend::Setup::DeleteTap)
                ==> plan::gets(p, replies, backend::Setup::Forward, Reply::Error)
                || plan::gets(p, replies, backend::Setup::AddRules, Reply::Error)
            &&& plan::does(p, replies, backend::Setup::Release)
                ==> plan::gets(p, replies, backend::Setup::CreateTap, Reply::Error)
                || plan::does(p, replies, backend::Setup::DeleteTap)
            &&& end == backend::Setup::Done ==> plan::manages(p, replies, backend::Setup::AddRules)
            &&& end == backend::Setup::Done ==> plan::manages(p, replies, backend::Setup::FindWan)
            &&& end == backend::Setup::Done ==> plan::manages(p, replies, backend::Setup::Allocate)
            &&& end == backend::Setup::Done ==> plan::manages(p, replies, backend::Setup::CreateTap)
            &&& end == backend::Setup::Done ==> plan::manages(p, replies, backend::Setup::Forward)
            &&& end == backend::Setup::Failed
                ==> plan::gets(p, replies, backend::Setup::FindWan, Reply::Error)
                || plan::gets(p, replies, backend::Setup::DetectWan, Reply::Error)
                || plan::gets(p, replies, backend::Setup::Allocate, Reply::Error)
                || plan::does(p, replies, backend::Setup::Release)
        }),
{
    let p = backend::Setup::FindWan;
    let end = plan::reached(p, replies);
    assert(plan::does(p, replies, backend::Setup::DetectWan)
        ==> plan::gets(p, replies, backend::Setup::FindWan, Reply::No)) by {
        plan::lemma_way_in(
            p,
            replies,
            |x: backend::Setup| x == backend::Setup::DetectWan,
            plan::getting(backend::Setup::FindWan, Reply::No),
        );
    }
    assert(plan::does(p, replies, backend::Setup::Allocate)
        ==> plan::gets(p, replies, backend::Setup::FindWan, Reply::Yes)
        || plan::manages(p, replies, backend::Setup::DetectWan)) by {
        plan::lemma_way_in(
            p,
            replies,
            |x: backend::Setup|
                x != backend::Setup::FindWan && x != backend::Setup::DetectWan
                    && x != backend::Setup::Failed,
            plan::either(plan::getting(backend::Setup::FindWan, Reply::Yes), plan::managing(backend::Setup::DetectWan)),
        );
        plan::lemma_either(
            p,
            replies,
            plan::getting(backend::Setup::FindWan, Reply::Yes),
            plan::managing(backend::Setup::DetectWan),
        );
    }
    assert(plan::does(p, replies, backend::Setup::CreateTap)
        ==> plan::manages(p, replies, backend::Setup::Allocate)) by {
        plan::lemma_way_in(
            p,
            replies,
            |x: backend::Setup|
                x != backend::Setup::FindWan && x != backend::Setup::DetectWan
                    && x != backend::Setup::Allocate && x != backend::Setup::Failed,
            plan::managing(backend::Setup::Allocate),
        );
    }
    assert(plan::does(p, replies, backend::Setup::Forward)
        ==> plan::manages(p, replies, backend::Setup::CreateTap)) by {
        plan::lemma_way_in(
            p,
            replies,
            |x: backend::Setup|
                x == backend::Setup::Forward || x == backend::Setup::AddRules
                    || x == backend::Setup::DeleteTap || x == backend::Setup::Done,
            plan::managing(backend::Setup::CreateTap),
        );
    }
    assert(plan::does(p, replies, backend::Setup::AddRules)
        ==> plan::manages(p, replies, backend::Setup::Forward)) by {
        plan::lemma_way_in(
            p,
            replies,
            |x: backend::Setup| x == backend::Setup::AddRules || x == backend::Setup::Done,
            plan::managing(backend::Setup::Forward),
        );
    }
    assert(plan::does(p, replies, backend::Setup::DeleteTap)
        ==> plan::gets(p, replies, backend::Setup::Forward, Reply::Error)
        || plan::gets(p, replies, backend::Setup::AddRules, Reply::Error)) by {
        plan::lemma_way_in(
            p,
            replies,
            |x: backend::Setup| x == backend::Setup::DeleteTap,
            plan::either(plan::getting(backend::Setup::Forward, Reply::Error), plan::getting(backend::Setup::AddRules, Reply::Error)),
        );
        plan::lemma_either(
            p,
            replies,
            plan::getting(backend::Setup::Forward, Reply::Error),
            plan::getting(backend::Setup::AddRules, Reply::Error),
        );
    }
    assert(plan::does(p, replies, backend::Setup::Release)
        ==> plan::gets(p, replies, backend::Setup::CreateTap, Reply::Error)
        || plan::does(p, replies, backend::Setup::DeleteTap)) by {
        plan::lemma_way_in(
            p,
            replies,
            |x: backend::Setup| x == backend::Setup::Release,
            plan::either(plan::getting(backend::Setup::CreateTap, Reply::Error), plan::doing(backend::Setup::DeleteTap)),
        );
        plan::lemma_either(
            p,
            replies,
            plan::getting(backend::Setup::CreateTap, Reply::Error),
            plan::doing(backend::Setup::DeleteTap),
        );
    }
    assert(end == backend::Setup::Done ==> plan::manages(p, replies, backend::Setup::AddRules)) by {
        plan::lemma_way_in(
            p,
            replies,
            |x: backend::Setup| x == backend::Setup::Done,
            plan::managing(backend::Setup::AddRules),
        );
    }
    assert(end == backend::Setup::Done ==> plan::manages(p, replies, backend::Setup::FindWan)) by {
        plan::lemma_way_in(
            p,
            replies,
            |x: backend::Setup| x != backend::Setup::FindWan && x != backend::Setup::Failed,
            plan::managing(backend::Setup::FindWan),
        );
    }
    assert(end == backend::Setup::Done ==> plan::manages(p, replies, backend::Setup::Allocate)) by {
        plan::lemma_way_in(
            p,
            replies,
            |x: backend::Setup|
                x != backend::Setup::FindWan && x != backend::Setup::DetectWan
                    && x != backend::Setup::Allocate && x != backend::Setup::Failed,
            plan::managing(backend::Setup::Allocate),
        );
    }
    assert(end == backend::Setup::Done ==> plan::manages(p, replies, backend::Setup::CreateTap)) by {
        plan::lemma_way_in(
            p,
            replies,
            |x: backend::Setup|
                x == backend::Setup::Forward || x == backend::Setup::AddRules
                    || x == backend::Setup::DeleteTap || x == backend::Setup::Done,
            plan::managing(backend::Setup::CreateTap),
        );
    }
    assert(end == backend::Setup::Done ==> plan::manages(p, replies, backend::Setup::Forward)) by {
        plan::lemma_way_in(
            p,
            replies,
            |x: backend::Setup| x == backend::Setup::AddRules || x == backend::Setup::Done,
            plan::managing(backend::Setup::Forward),
        );
    }
    assert(end == backend::Setup::Failed
        ==> plan::gets(p, replies, backend::Setup::FindWan, Reply::Error)
        || plan::gets(p, replies, backend::Setup::DetectWan, Reply::Error)
        || plan::gets(p, replies, backend::Setup::Allocate, Reply::Error)
        || plan::does(p, replies, backend::Setup::Release)) by {
        plan::lemma_way_in(
            p,
            replies,
            |x: backend::Setup| x == backend::Setup::Failed,
            plan::either(plan::getting(backend::Setup::FindWan, Reply::Error), plan::either(plan::getting(backend::Setup::DetectWan, Reply::Error), plan::either(plan::getting(backend::Setup::Allocate, Reply::Error), plan::doing(backend::Setup::Release)))),
        );
        plan::lemma_either(
            p,
            replies,
            plan::getting(backend::Setup::FindWan, Reply::Error),
            plan::either(plan::getting(backend::Setup::DetectWan, Reply::Error), plan::either(plan::getting(backend::Setup::Allocate, Reply::Error), plan::doing(backend::Setup::Release))),
        );
        plan::lemma_either(
            p,
            replies,
            plan::getting(backend::Setup::DetectWan, Reply::Error),
            plan::either(plan::getting(backend::Setup::Allocate, Reply::Error), plan::doing(backend::Setup::Release)),
        );
        plan::lemma_either(
            p,
            replies,
            plan::getting(backend::Setup::Allocate, Reply::Error),
            plan::doing(backend::Setup::Release),
        );
    }
}

/// Rules go before the device, and the address is released last. A phase is done only
/// after the ones it needs, and the work is done only where all of them were.
pub proof fn law_cleanup_order(replies: Seq<Reply>)
    ensures
        ({
            let p = backend::Cleanup::AskNetwork;
            let end = plan::reached(p, replies);
            &&& !backend::Cleanup::Done.doomed()
            &&& plan::does(p, replies, backend::Cleanup::FindWan)
                ==> plan::gets(p, replies, backend::Cleanup::AskNetwork, Reply::Yes)
            &&& plan::does(p, replies, backend::Cleanup::AskEgress)
                ==> plan::gets(p, replies, backend::Cleanup::FindWan, Reply::Yes)
            &&& plan::does(p, replies, backend::Cleanup::RemoveEgress)
                ==> plan::gets(p, replies, backend::Cleanup::AskEgress, Reply::Yes)
            &&& plan::does(p, replies, backend::Cleanup::RemoveNat)
                ==> plan::gets(p, replies, backend::Cleanup::AskEgress, Reply::No)
                || plan::gets(p, replies, backend::Cleanup::AskEgress, Reply::Error)
                || plan::does(p, replies, backend::Cleanup::RemoveEgress)
            &&& plan::does(p, replies, backend::Cleanup::DeleteTap)
                ==> plan::gets(p, replies, backend::Cleanup::FindWan, Reply::No)
                || plan::gets(p, replies, backend::Cleanup::FindWan, Reply::Error)
                || plan::does(p, replies, backend::Cleanup::RemoveNat)
            &&& plan::does(p, replies, backend::Cleanup::Release)
                ==> plan::does(p, replies, backend::Cleanup::DeleteTap)
            &&& end == backend::Cleanup::Done
                ==> plan::gets(p, replies, backend::Cleanup::AskNetwork, Reply::No)
                || plan::gets(p, replies, backend::Cleanup::AskNetwork, Reply::Error)
                || plan::does(p, replies, backend::Cleanup::Release)
            &&& end == backend::Cleanup::Done ==> plan::does(p, replies, backend::Cleanup::AskNetwork)
        }),
{
    let p = backend::Cleanup::AskNetwork;
    let end = plan::reached(p, replies);
    assert(plan::does(p, replies, backend::Cleanup::FindWan)
        ==> plan::gets(p, replies, backend::Cleanup::AskNetwork, Reply::Yes)) by {
        plan::lemma_way_in(
            p,
            replies,
            |x: backend::Cleanup|
                x != backend::Cleanup::AskNetwork && x != backend::Cleanup::Done,
            plan::getting(backend::Cleanup::AskNetwork, Reply::Yes),
        );
    }
    assert(plan::does(p, replies, backend::Cleanup::AskEgress)
        ==> plan::gets(p, replies, backend::Cleanup::FindWan, Reply::Yes)) by {
        plan::lemma_way_in(
            p,
            replies,
            |x: backend::Cleanup|
                x == backend::Cleanup::AskEgress || x == backend::Cleanup::RemoveEgress
                    || x == backend::Cleanup::RemoveNat,
            plan::getting(backend::Cleanup::FindWan, Reply::Yes),
        );
    }
    assert(plan::does(p, replies, backend::Cleanup::RemoveEgress)
        ==> plan::gets(p, replies, backend::Cleanup::AskEgress, Reply::Yes)) by {
        plan::lemma_way_in(
            p,
            replies,
            |x: backend::Cleanup| x == backend::Cleanup::RemoveEgress,
            plan::getting(backend::Cleanup::AskEgress, Reply::Yes),
        );
    }
    assert(plan::does(p, replies, backend::Cleanup::RemoveNat)
        ==> plan::gets(p, replies, backend::Cleanup::AskEgress, Reply::No)
        || plan::gets(p, replies, backend::Cleanup::AskEgress, Reply::Error)
        || plan::does(p, replies, backend::Cleanup::RemoveEgress)) by {
        plan::lemma_way_in(
            p,
            replies,
            |x: backend::Cleanup| x == backend::Cleanup::RemoveNat,
            plan::either(plan::getting(backend::Cleanup::AskEgress, Reply::No), plan::either(plan::getting(backend::Cleanup::AskEgress, Reply::Error), plan::doing(backend::Cleanup::RemoveEgress))),
        );
        plan::lemma_either(
            p,
            replies,
            plan::getting(backend::Cleanup::AskEgress, Reply::No),
            plan::either(plan::getting(backend::Cleanup::AskEgress, Reply::Error), plan::doing(backend::Cleanup::RemoveEgress)),
        );
        plan::lemma_either(
            p,
            replies,
            plan::getting(backend::Cleanup::AskEgress, Reply::Error),
            plan::doing(backend::Cleanup::RemoveEgress),
        );
    }
    assert(plan::does(p, replies, backend::Cleanup::DeleteTap)
        ==> plan::gets(p, replies, backend::Cleanup::FindWan, Reply::No)
        || plan::gets(p, replies, backend::Cleanup::FindWan, Reply::Error)
        || plan::does(p, replies, backend::Cleanup::RemoveNat)) by {
        plan::lemma_way_in(
            p,
            replies,
            |x: backend::Cleanup|
                x == backend::Cleanup::DeleteTap || x == backend::Cleanup::Release,
            plan::either(plan::getting(backend::Cleanup::FindWan, Reply::No), plan::either(plan::getting(backend::Cleanup::FindWan, Reply::Error), plan::doing(backend::Cleanup::RemoveNat))),
        );
        plan::lemma_either(
            p,
            replies,
            plan::getting(backend::Cleanup::FindWan, Reply::No),
            plan::either(plan::getting(backend::Cleanup::FindWan, Reply::Error), plan::doing(backend::Cleanup::RemoveNat)),
        );
        plan::lemma_either(
            p,
            replies,
            plan::getting(backend::Cleanup::FindWan, Reply::Error),
            plan::doing(backend::Cleanup::RemoveNat),
        );
    }
    assert(plan::does(p, replies, backend::Cleanup::Release)
        ==> plan::does(p, replies, backend::Cleanup::DeleteTap)) by {
        plan::lemma_way_in(
            p,
            replies,
            |x: backend::Cleanup| x == backend::Cleanup::Release,
            plan::doing(backend::Cleanup::DeleteTap),
        );
    }
    assert(end == backend::Cleanup::Done
        ==> plan::gets(p, replies, backend::Cleanup::AskNetwork, Reply::No)
        || plan::gets(p, replies, backend::Cleanup::AskNetwork, Reply::Error)
        || plan::does(p, replies, backend::Cleanup::Release)) by {
        plan::lemma_way_in(
            p,
            replies,
            |x: backend::Cleanup| x == backend::Cleanup::Done,
            plan::either(plan::getting(backend::Cleanup::AskNetwork, Reply::No), plan::either(plan::getting(backend::Cleanup::AskNetwork, Reply::Error), plan::doing(backend::Cleanup::Release))),
        );
        plan::lemma_either(
            p,
            replies,
            plan::getting(backend::Cleanup::AskNetwork, Reply::No),
            plan::either(plan::getting(backend::Cleanup::AskNetwork, Reply::Error), plan::doing(backend::Cleanup::Release)),
        );
        plan::lemma_either(
            p,
            replies,
            plan::getting(backend::Cleanup::AskNetwork, Reply::Error),
            plan::doing(backend::Cleanup::Release),
        );
    }
    assert(end == backend::Cleanup::Done ==> plan::does(p, replies, backend::Cleanup::AskNetwork)) by {
        plan::lemma_way_in(
            p,
            replies,
            |x: backend::Cleanup| x != backend::Cleanup::AskNetwork,
            plan::doing(backend::Cleanup::AskNetwork),
        );
    }
}

/// A TAP device gets its address before it is brought up. A phase is done only after
/// the ones it needs, and the work is done only where all of them were.
pub proof fn law_tap_order(replies: Seq<Reply>)
    ensures
        ({
            let p = tap::CreateTap::CheckLength;
            let end = plan::reached(p, replies);
            &&& !tap::CreateTap::Up.doomed()
            &&& tap::CreateTap::Failed.doomed()
            &&& plan::does(p, replies, tap::CreateTap::OpenTun)
                ==> plan::manages(p, replies, tap::CreateTap::CheckLength)
            &&& plan::does(p, replies, tap::CreateTap::CheckNul)
                ==> plan::manages(p, replies, tap::CreateTap::OpenTun)
            &&& plan::does(p, replies, tap::CreateTap::SetInterface)
                ==> plan::manages(p, replies, tap::CreateTap::CheckNul)
            &&& plan::does(p, replies, tap::CreateTap::Persist)
                ==> plan::manages(p, replies, tap::CreateTap::SetInterface)
            &&& plan::does(p, replies, tap::CreateTap::SpawnAddress)
                ==> plan::manages(p, replies, tap::CreateTap::Persist)
            &&& plan::does(p, replies, tap::CreateTap::CheckAddress)
                ==> plan::manages(p, replies, tap::CreateTap::SpawnAddress)
            &&& plan::does(p, replies, tap::CreateTap::SpawnUp)
                ==> plan::manages(p, replies, tap::CreateTap::CheckAddress)
            &&& plan::does(p, replies, tap::CreateTap::CheckUp)
                ==> plan::manages(p, replies, tap::CreateTap::SpawnUp)
            &&& plan::does(p, replies, tap::CreateTap::Delete)
                ==> plan::gets(p, replies, tap::CreateTap::Persist, Reply::Error)
                || plan::gets(p, replies, tap::CreateTap::CheckAddress, Reply::Error)
                || plan::gets(p, replies, tap::CreateTap::CheckUp, Reply::Error)
            &&& end == tap::CreateTap::Up ==> plan::manages(p, replies, tap::CreateTap::CheckUp)
            &&& end == tap::CreateTap::Up ==> plan::manages(p, replies, tap::CreateTap::CheckLength)
            &&& end == tap::CreateTap::Up ==> plan::manages(p, replies, tap::CreateTap::OpenTun)
            &&& end == tap::CreateTap::Up ==> plan::manages(p, replies, tap::CreateTap::CheckNul)
            &&& end == tap::CreateTap::Up ==> plan::manages(p, replies, tap::CreateTap::SetInterface)
            &&& end == tap::CreateTap::Up ==> plan::manages(p, replies, tap::CreateTap::Persist)
            &&& end == tap::CreateTap::Up ==> plan::manages(p, replies, tap::CreateTap::SpawnAddress)
            &&& end == tap::CreateTap::Up ==> plan::manages(p, replies, tap::CreateTap::CheckAddress)
            &&& end == tap::CreateTap::Up ==> plan::manages(p, replies, tap::CreateTap::SpawnUp)
            &&& end == tap::CreateTap::Failed
                ==> plan::gets(p, replies, tap::CreateTap::CheckLength, Reply::Error)
                || plan::gets(p, replies, tap::CreateTap::OpenTun, Reply::Error)
                || plan::gets(p, replies, tap::CreateTap::CheckNul, Reply::Error)
                || plan::gets(p, replies, tap::CreateTap::SetInterface, Reply::Error)
                || plan::gets(p, replies, tap::CreateTap::SpawnAddress, Reply::Error)
                || plan::gets(p, replies, tap::CreateTap::SpawnUp, Reply::Error)
                || plan::does(p, replies, tap::CreateTap::Delete)
        }),
{
    let p = tap::CreateTap::CheckLength;
    let end = plan::reached(p, replies);
    assert(plan::does(p, replies, tap::CreateTap::OpenTun)
        ==> plan::manages(p, replies, tap::CreateTap::CheckLength)) by {
        plan::lemma_way_in(
            p,
            replies,
            |x: tap::CreateTap|
                x != tap::CreateTap::CheckLength && x != tap::CreateTap::Failed,
            plan::managing(tap::CreateTap::CheckLength),
        );
    }
    assert(plan::does(p, replies, tap::CreateTap::CheckNul)
        ==> plan::manages(p, replies, tap::CreateTap::OpenTun)) by {
        plan::lemma_way_in(
            p,
            replies,
            |x: tap::CreateTap|
                x != tap::CreateTap::CheckLength && x != tap::CreateTap::OpenTun
                    && x != tap::CreateTap::Failed,
            plan::managing(tap::CreateTap::OpenTun),
        );
    }
    assert(plan::does(p, replies, tap::CreateTap::SetInterface)
        ==> plan::manages(p, replies, tap::CreateTap::CheckNul)) by {
        plan::lemma_way_in(
            p,
            replies,
            |x: tap::CreateTap|
                x != tap::CreateTap::CheckLength && x != tap::CreateTap::OpenTun
                    && x != tap::CreateTap::CheckNul && x != tap::CreateTap::Failed,
            plan::managing(tap::CreateTap::CheckNul),
        );
    }
    assert(plan::does(p, replies, tap::CreateTap::Persist)
        ==> plan::manages(p, replies, tap::CreateTap::SetInterface)) by {
        plan::lemma_way_in(
            p,
            replies,
            |x: tap::CreateTap|
                x != tap::CreateTap::CheckLength && x != tap::CreateTap::OpenTun
                    && x != tap::CreateTap::CheckNul && x != tap::CreateTap::SetInterface
                    && x != tap::CreateTap::Failed,
            plan::managing(tap::CreateTap::SetInterface),
        );
    }
    assert(plan::does(p, replies, tap::CreateTap::SpawnAddress)
        ==> plan::manages(p, replies, tap::CreateTap::Persist)) by {
        plan::lemma_way_in(
            p,
            replies,
            |x: tap::CreateTap|
                x == tap::CreateTap::SpawnAddress || x == tap::CreateTap::CheckAddress
                    || x == tap::CreateTap::SpawnUp || x == tap::CreateTap::CheckUp
                    || x == tap::CreateTap::Up,
            plan::managing(tap::CreateTap::Persist),
        );
    }
    assert(plan::does(p, replies, tap::CreateTap::CheckAddress)
        ==> plan::manages(p, replies, tap::CreateTap::SpawnAddress)) by {
        plan::lemma_way_in(
            p,
            replies,
            |x: tap::CreateTap|
                x == tap::CreateTap::CheckAddress || x == tap::CreateTap::SpawnUp
                    || x == tap::CreateTap::CheckUp || x == tap::CreateTap::Up,
            plan::managing(tap::CreateTap::SpawnAddress),
        );
    }
    assert(plan::does(p, replies, tap::CreateTap::SpawnUp)
        ==> plan::manages(p, replies, tap::CreateTap::CheckAddress)) by {
        plan::lemma_way_in(
            p,
            replies,
            |x: tap::CreateTap|
                x == tap::CreateTap::SpawnUp || x == tap::CreateTap::CheckUp
                    || x == tap::CreateTap::Up,
            plan::managing(tap::CreateTap::CheckAddress),
        );
    }
    assert(plan::does(p, replies, tap::CreateTap::CheckUp)
        ==> plan::manages(p, replies, tap::CreateTap::SpawnUp)) by {
        plan::lemma_way_in(
            p,
            replies,
            |x: tap::CreateTap| x == tap::CreateTap::CheckUp || x == tap::CreateTap::Up,
            plan::managing(tap::CreateTap::SpawnUp),
        );
    }
    assert(plan::does(p, replies, tap::CreateTap::Delete)
        ==> plan::gets(p, replies, tap::CreateTap::Persist, Reply::Error)
        || plan::gets(p, replies, tap::CreateTap::CheckAddress, Reply::Error)
        || plan::gets(p, replies, tap::CreateTap::CheckUp, Reply::Error)) by {
        plan::lemma_way_in(
            p,
            replies,
            |x: tap::CreateTap| x == tap::CreateTap::Delete,
            plan::either(plan::getting(tap::CreateTap::Persist, Reply::Error), plan::either(plan::getting(tap::CreateTap::CheckAddress, Reply::Error), plan::getting(tap::CreateTap::CheckUp, Reply::Error))),
        );
        plan::lemma_either(
            p,
            replies,
            plan::getting(tap::CreateTap::Persist, Reply::Error),
            plan::either(plan::getting(tap::CreateTap::CheckAddress, Reply::Error), plan::getting(tap::CreateTap::CheckUp, Reply::Error)),
        );
        plan::lemma_either(
            p,
            replies,
            plan::getting(tap::CreateTap::CheckAddress, Reply::Error),
            plan::getting(tap::CreateTap::CheckUp, Reply::Error),
        );
    }
    assert(end == tap::CreateTap::Up ==> plan::manages(p, replies, tap::CreateTap::CheckUp)) by {
        plan::lemma_way_in(
            p,
            replies,
            |x: tap::CreateTap| x == tap::CreateTap::Up,
            plan::managing(tap::CreateTap::CheckUp),
        );
    }
    assert(end == tap::CreateTap::Up ==> plan::manages(p, replies, tap::CreateTap::CheckLength)) by {
        plan::lemma_way_in(
            p,
            replies,
            |x: tap::CreateTap|
                x != tap::CreateTap::CheckLength && x != tap::CreateTap::Failed,
            plan::managing(tap::CreateTap::CheckLength),
        );
    }
    assert(end == tap::CreateTap::Up ==> plan::manages(p, replies, tap::CreateTap::OpenTun)) by {
        plan::lemma_way_in(
            p,
            replies,
            |x: tap::CreateTap|
                x != tap::CreateTap::CheckLength && x != tap::CreateTap::OpenTun
                    && x != tap::CreateTap::Failed,
            plan::managing(tap::CreateTap::OpenTun),
        );
    }
    assert(end == tap::CreateTap::Up ==> plan::manages(p, replies, tap::CreateTap::CheckNul)) by {
        plan::lemma_way_in(
            p,
            replies,
            |x: tap::CreateTap|
                x != tap::CreateTap::CheckLength && x != tap::CreateTap::OpenTun
                    && x != tap::CreateTap::CheckNul && x != tap::CreateTap::Failed,
            plan::managing(tap::CreateTap::CheckNul),
        );
    }
    assert(end == tap::CreateTap::Up ==> plan::manages(p, replies, tap::CreateTap::SetInterface)) by {
        plan::lemma_way_in(
            p,
            replies,
            |x: tap::CreateTap|
                x != tap::CreateTap::CheckLength && x != tap::CreateTap::OpenTun
                    && x != tap::CreateTap::CheckNul && x != tap::CreateTap::SetInterface
                    && x != tap::CreateTap::Failed,
            plan::managing(tap::CreateTap::SetInterface),
        );
    }
    assert(end == tap::CreateTap::Up ==> plan::manages(p, replies, tap::CreateTap::Persist)) by {
        plan::lemma_way_in(
            p,
            replies,
            |x: tap::CreateTap|
                x == tap::CreateTap::SpawnAddress || x == tap::CreateTap::CheckAddress
                    || x == tap::CreateTap::SpawnUp || x == tap::CreateTap::CheckUp
                    || x == tap::CreateTap::Up,
            plan::managing(tap::CreateTap::Persist),
        );
    }
    assert(end == tap::CreateTap::Up ==> plan::manages(p, replies, tap::CreateTap::SpawnAddress)) by {
        plan::lemma_way_in(
            p,
            replies,
            |x: tap::CreateTap|
                x == tap::CreateTap::CheckAddress || x == tap::CreateTap::SpawnUp
                    || x == tap::CreateTap::CheckUp || x == tap::CreateTap::Up,
            plan::managing(tap::CreateTap::SpawnAddress),
        );
    }
    assert(end == tap::CreateTap::Up ==> plan::manages(p, replies, tap::CreateTap::CheckAddress)) by {
        plan::lemma_way_in(
            p,
            replies,
            |x: tap::CreateTap|
                x == tap::CreateTap::SpawnUp || x == tap::CreateTap::CheckUp
                    || x == tap::CreateTap::Up,
            plan::managing(tap::CreateTap::CheckAddress),
        );
    }
    assert(end == tap::CreateTap::Up ==> plan::manages(p, replies, tap::CreateTap::SpawnUp)) by {
        plan::lemma_way_in(
            p,
            replies,
            |x: tap::CreateTap| x == tap::CreateTap::CheckUp || x == tap::CreateTap::Up,
            plan::managing(tap::CreateTap::SpawnUp),
        );
    }
    assert(end == tap::CreateTap::Failed
        ==> plan::gets(p, replies, tap::CreateTap::CheckLength, Reply::Error)
        || plan::gets(p, replies, tap::CreateTap::OpenTun, Reply::Error)
        || plan::gets(p, replies, tap::CreateTap::CheckNul, Reply::Error)
        || plan::gets(p, replies, tap::CreateTap::SetInterface, Reply::Error)
        || plan::gets(p, replies, tap::CreateTap::SpawnAddress, Reply::Error)
        || plan::gets(p, replies, tap::CreateTap::SpawnUp, Reply::Error)
        || plan::does(p, replies, tap::CreateTap::Delete)) by {
        plan::lemma_way_in(
            p,
            replies,
            |x: tap::CreateTap| x == tap::CreateTap::Failed,
            plan::either(plan::getting(tap::CreateTap::CheckLength, Reply::Error), plan::either(plan::getting(tap::CreateTap::OpenTun, Reply::Error), plan::either(plan::getting(tap::CreateTap::CheckNul, Reply::Error), plan::either(plan::getting(tap::CreateTap::SetInterface, Reply::Error), plan::either(plan::getting(tap::CreateTap::SpawnAddress, Reply::Error), plan::either(plan::getting(tap::CreateTap::SpawnUp, Reply::Error), plan::doing(tap::CreateTap::Delete))))))),
        );
        plan::lemma_either(
            p,
            replies,
            plan::getting(tap::CreateTap::CheckLength, Reply::Error),
            plan::either(plan::getting(tap::CreateTap::OpenTun, Reply::Error), plan::either(plan::getting(tap::CreateTap::CheckNul, Reply::Error), plan::either(plan::getting(tap::CreateTap::SetInterface, Reply::Error), plan::either(plan::getting(tap::CreateTap::SpawnAddress, Reply::Error), plan::either(plan::getting(tap::CreateTap::SpawnUp, Reply::Error), plan::doing(tap::CreateTap::Delete)))))),
        );
        plan::lemma_either(
            p,
            replies,
            plan::getting(tap::CreateTap::OpenTun, Reply::Error),
            plan::either(plan::getting(tap::CreateTap::CheckNul, Reply::Error), plan::either(plan::getting(tap::CreateTap::SetInterface, Reply::Error), plan::either(plan::getting(tap::CreateTap::SpawnAddress, Reply::Error), plan::either(plan::getting(tap::CreateTap::SpawnUp, Reply::Error), plan::doing(tap::CreateTap::Delete))))),
        );
        plan::lemma_either(
            p,
            replies,
            plan::getting(tap::CreateTap::CheckNul, Reply::Error),
            plan::either(plan::getting(tap::CreateTap::SetInterface, Reply::Error), plan::either(plan::getting(tap::CreateTap::SpawnAddress, Reply::Error), plan::either(plan::getting(tap::CreateTap::SpawnUp, Reply::Error), plan::doing(tap::CreateTap::Delete)))),
        );
        plan::lemma_either(
            p,
            replies,
            plan::getting(tap::CreateTap::SetInterface, Reply::Error),
            plan::either(plan::getting(tap::CreateTap::SpawnAddress, Reply::Error), plan::either(plan::getting(tap::CreateTap::SpawnUp, Reply::Error), plan::doing(tap::CreateTap::Delete))),
        );
        plan::lemma_either(
            p,
            replies,
            plan::getting(tap::CreateTap::SpawnAddress, Reply::Error),
            plan::either(plan::getting(tap::CreateTap::SpawnUp, Reply::Error), plan::doing(tap::CreateTap::Delete)),
        );
        plan::lemma_either(
            p,
            replies,
            plan::getting(tap::CreateTap::SpawnUp, Reply::Error),
            plan::doing(tap::CreateTap::Delete),
        );
    }
}

/// The steps that make the work fail: the failure of any other phase is lived with.
pub open spec fn start_faults() -> spec_fn(vm::Start, Reply) -> bool {
    |x: vm::Start, r: Reply|
        r == Reply::Error && (x == vm::Start::RequireNetwork || x == vm::Start::OpenDisk
            || x == vm::Start::AskSocket || x == vm::Start::RemoveSocket
            || x == vm::Start::AskVsockSocket || x == vm::Start::RemoveVsockSocket
            || x == vm::Start::Spawn || x == vm::Start::WaitSocket
            || x == vm::Start::MakeRuntime || x == vm::Start::Configure)
}

/// The work fails in a run that takes one of these steps, and in no other.
pub proof fn law_start_failures(replies: Seq<Reply>)
    ensures
        plan::reached(vm::Start::RequireNetwork, replies).doomed() <==> plan::went(
            vm::Start::RequireNetwork,
            replies,
            start_faults(),
        ),
{
    let p = vm::Start::RequireNetwork;
    plan::lemma_way_in(
        p,
        replies,
        |x: vm::Start| x == vm::Start::Kill || x == vm::Start::Failed,
        start_faults(),
    );
    plan::lemma_stays(
        p,
        replies,
        start_faults(),
        |x: vm::Start| x == vm::Start::Kill || x == vm::Start::Failed,
    );
}

/// The steps that make the work fail: the failure of any other phase is lived with.
pub open spec fn stop_faults() -> spec_fn(vm::Stop, Reply) -> bool {
    |x: vm::Stop, r: Reply|
        r == Reply::Error && (x == vm::Stop::RequirePid || x == vm::Stop::AskAlive
            || x == vm::Stop::MakeRuntime || x == vm::Stop::Kill)
}

/// The work fails in a run that takes one of these steps, and in no other.
pub proof fn law_stop_failures(replies: Seq<Reply>)
    ensures
        plan::reached(vm::Stop::RequirePid, replies).doomed() <==> plan::went(
            vm::Stop::RequirePid,
            replies,
            stop_faults(),
        ),
{
    let p = vm::Stop::RequirePid;
    plan::lemma_way_in(p, replies, |x: vm::Stop| x == vm::Stop::Failed, stop_faults());
    plan::lemma_stays(p, replies, stop_faults(), |x: vm::Stop| x == vm::Stop::Failed);
}

/// The steps that make the work fail: the failure of any other phase is lived with.
pub open spec fn force_stop_faults() -> spec_fn(vm::ForceStop, Reply) -> bool {
    |x: vm::ForceStop, r: Reply|
        r == Reply::Error && (x == vm::ForceStop::RequirePid || x == vm::ForceStop::Kill)
}

/// The work fails in a run that takes one of these steps, and in no other.
pub proof fn law_force_stop_failures(replies: Seq<Reply>)
    ensures
        plan::reached(vm::ForceStop::RequirePid, replies).doomed() <==> plan::went(
            vm::ForceStop::RequirePid,
            replies,
            force_stop_faults(),
        ),
{
    let p = vm::ForceStop::RequirePid;
    plan::lemma_way_in(
        p,
        replies,
        |x: vm::ForceStop| x == vm::ForceStop::Failed,
        force_stop_faults(),
    );
    plan::lemma_stays(
        p,
        replies,
        force_stop_faults(),
        |x: vm::ForceStop| x == vm::ForceStop::Failed,
    );
}

/// The steps that make the work fail.
pub open spec fn secure_faults() -> spec_fn(vsock::Secure, Reply) -> bool {
    |x: vsock::Secure, r: Reply|
        r == Reply::Error && (x == vsock::Secure::Wait || x == vsock::Secure::Narrow
            || x == vsock::Secure::AskUser || x == vsock::Secure::Chown
            || x == vsock::Secure::AskParent || x == vsock::Secure::OpenDir)
}

/// The work fails in a run that takes one of these steps, and in no other.
pub proof fn law_secure_failures(replies: Seq<Reply>)
    ensures
        plan::reached(vsock::Secure::Wait, replies).doomed() <==> plan::went(
            vsock::Secure::Wait,
            replies,
            secure_faults(),
        ),
{
    let p = vsock::Secure::Wait;
    plan::lemma_way_in(p, replies, |x: vsock::Secure| x == vsock::Secure::Failed, secure_faults());
    plan::lemma_stays(p, replies, secure_faults(), |x: vsock::Secure| x == vsock::Secure::Failed);
}

/// The steps that make the work fail.
pub open spec fn setup_faults() -> spec_fn(backend::Setup, Reply) -> bool {
    |x: backend::Setup, r: Reply|
        r == Reply::Error && (x == backend::Setup::FindWan || x == backend::Setup::DetectWan
            || x == backend::Setup::Allocate || x == backend::Setup::CreateTap
            || x == backend::Setup::Forward || x == backend::Setup::AddRules)
}

/// The work fails in a run that takes one of these steps, and in no other.
pub proof fn law_setup_failures(replies: Seq<Reply>)
    ensures
        plan::reached(backend::Setup::FindWan, replies).doomed() <==> plan::went(
            backend::Setup::FindWan,
            replies,
            setup_faults(),
        ),
{
    let p = backend::Setup::FindWan;
    plan::lemma_way_in(
        p,
        replies,
        |x: backend::Setup|
                x == backend::Setup::DeleteTap || x == backend::Setup::Release
                    || x == backend::Setup::Failed,
        setup_faults(),
    );
    plan::lemma_stays(
        p,
        replies,
        setup_faults(),
        |x: backend::Setup|
                x == backend::Setup::DeleteTap || x == backend::Setup::Release
                    || x == backend::Setup::Failed,
    );
}

/// The steps that make the work fail.
pub open spec fn tap_faults() -> spec_fn(tap::CreateTap, Reply) -> bool {
    |x: tap::CreateTap, r: Reply|
        r == Reply::Error && (x == tap::CreateTap::CheckLength || x == tap::CreateTap::OpenTun
            || x == tap::CreateTap::CheckNul || x == tap::CreateTap::SetInterface
            || x == tap::CreateTap::Persist || x == tap::CreateTap::SpawnAddress
            || x == tap::CreateTap::CheckAddress || x == tap::CreateTap::SpawnUp
            || x == tap::CreateTap::CheckUp)
}

/// The work fails in a run that takes one of these steps, and in no other.
pub proof fn law_tap_failures(replies: Seq<Reply>)
    ensures
        plan::reached(tap::CreateTap::CheckLength, replies).doomed() <==> plan::went(
            tap::CreateTap::CheckLength,
            replies,
            tap_faults(),
        ),
{
    let p = tap::CreateTap::CheckLength;
    plan::lemma_way_in(
        p,
        replies,
        |x: tap::CreateTap| x == tap::CreateTap::Delete || x == tap::CreateTap::Failed,
        tap_faults(),
    );
    plan::lemma_stays(
        p,
        replies,
        tap_faults(),
        |x: tap::CreateTap| x == tap::CreateTap::Delete || x == tap::CreateTap::Failed,
    );
}

} // verus!
