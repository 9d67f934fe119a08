//! The order in which host work is done, and what is undone where it fails.
use ember::backend::{discover_guest_ip, injected, Injection};
use ember::dm_thin::{pool, storage as thin};
use ember::error::Error;
use ember::linux::{vm, vsock};
use ember::macos::storage as disks;
use ember::network::{backend, tap};
use ember::plan::{Plan, Run};
use ember::zfs::storage as zfs;
use std::fmt::Debug;

/// The phases that a plan goes through where `fails` fails and every question but
/// those in `denied` is answered with yes.
fn walked<P: Plan + PartialEq + Debug>(
    start: P,
    ends: &[P],
    fails: Option<P>,
    denied: &[P],
) -> (Vec<P>, Option<String>) {
    let mut run: Run<P, String> = Run::start(start);
    let mut seen = vec![start];
    while !ends.contains(&run.phase) {
        let outcome = if Some(run.phase) == fails {
            Err(format!("{:?}", run.phase))
        } else {
            Ok(!denied.contains(&run.phase))
        };
        run.advance(outcome);
        seen.push(run.phase);
        assert!(seen.len() < 40, "{:?}", seen);
    }
    (seen, run.error)
}

#[test]
fn a_tap_that_cannot_be_brought_up_is_deleted() {
    let ends = [tap::CreateTap::Up, tap::CreateTap::Failed];
    let (seen, error) = walked(tap::CreateTap::CheckLength, &ends, Some(tap::CreateTap::CheckAddress), &[]);
    assert_eq!(seen[seen.len() - 2..], [tap::CreateTap::Delete, tap::CreateTap::Failed]);
    assert_eq!(error, Some("CheckAddress".to_string()));
    let (seen, error) = walked(tap::CreateTap::CheckLength, &ends, None, &[]);
    assert!(!seen.contains(&tap::CreateTap::Delete));
    assert_eq!((seen.last(), error), (Some(&tap::CreateTap::Up), None));
}

#[test]
fn a_failed_network_setup_is_rolled_back() {
    let ends = [backend::Setup::Done, backend::Setup::Failed];
    let (seen, error) = walked(backend::Setup::FindWan, &ends, Some(backend::Setup::AddRules), &[backend::Setup::FindWan]);
    assert_eq!(
        seen,
        vec![backend::Setup::FindWan, backend::Setup::DetectWan, backend::Setup::Allocate, backend::Setup::CreateTap, backend::Setup::Forward, backend::Setup::AddRules, backend::Setup::DeleteTap, backend::Setup::Release, backend::Setup::Failed]
    );
    assert_eq!(error, Some("AddRules".to_string()));
    let (seen, _) = walked(backend::Setup::FindWan, &ends, Some(backend::Setup::CreateTap), &[]);
    assert_eq!(seen, vec![backend::Setup::FindWan, backend::Setup::Allocate, backend::Setup::CreateTap, backend::Setup::Release, backend::Setup::Failed]);
}

#[test]
fn addresses_are_released_whatever_else_fails() {
    for failing in [backend::Cleanup::RemoveEgress, backend::Cleanup::RemoveNat, backend::Cleanup::DeleteTap] {
        let (seen, error) = walked(backend::Cleanup::AskNetwork, &[backend::Cleanup::Done], Some(failing), &[]);
        assert_eq!(seen[seen.len() - 3..], [backend::Cleanup::DeleteTap, backend::Cleanup::Release, backend::Cleanup::Done]);
        assert_eq!(error, None);
    }
}

#[test]
fn a_vm_that_cannot_be_configured_is_killed() {
    let ends = [vm::Start::Started, vm::Start::Failed];
    let (seen, error) = walked(vm::Start::RequireNetwork, &ends, Some(vm::Start::Configure), &[]);
    assert_eq!(seen[seen.len() - 3..], [vm::Start::Configure, vm::Start::Kill, vm::Start::Failed]);
    assert_eq!(error, Some("Configure".to_string()));
    let (seen, _) = walked(vm::Start::RequireNetwork, &ends, Some(vm::Start::Spawn), &[]);
    assert!(!seen.contains(&vm::Start::Kill));
    let (seen, error) = walked(vm::Start::RequireNetwork, &ends, Some(vm::Start::Secure), &[]);
    assert_eq!(seen[seen.len() - 3..], [vm::Start::AskVsock, vm::Start::Secure, vm::Start::Started]);
    assert_eq!(error, None);
}

#[test]
fn a_vm_is_asked_before_it_is_killed() {
    let ends = [vm::Stop::Stopped, vm::Stop::Failed];
    let (seen, _) = walked(vm::Stop::RequirePid, &ends, None, &[vm::Stop::SshReboot, vm::Stop::WaitExit]);
    assert_eq!(
        seen,
        vec![
            vm::Stop::RequirePid, vm::Stop::AskAlive, vm::Stop::MakeRuntime, vm::Stop::SshReboot, vm::Stop::CtrlAltDel, vm::Stop::WaitExit, vm::Stop::Kill, vm::Stop::WaitKilled,
            vm::Stop::RemoveSocket, vm::Stop::Stopped
        ]
    );
    let (seen, _) = walked(vm::Stop::RequirePid, &ends, None, &[vm::Stop::AskAlive]);
    assert_eq!(seen, vec![vm::Stop::RequirePid, vm::Stop::AskAlive, vm::Stop::RemoveSocket, vm::Stop::Stopped]);
    let ends = [vm::ForceStop::Stopped, vm::ForceStop::Failed];
    let (seen, _) = walked(vm::ForceStop::RequirePid, &ends, None, &[]);
    assert_eq!(seen[1], vm::ForceStop::Kill);
}

#[test]
fn a_socket_is_narrowed_before_it_is_handed_over() {
    let (seen, _) = walked(vsock::Secure::Wait, &[vsock::Secure::Done, vsock::Secure::Failed], None, &[]);
    assert_eq!(seen, vec![vsock::Secure::Wait, vsock::Secure::Narrow, vsock::Secure::AskUser, vsock::Secure::Chown, vsock::Secure::AskParent, vsock::Secure::OpenDir, vsock::Secure::Done]);
    let (seen, error) = walked(vsock::Secure::Wait, &[vsock::Secure::Done, vsock::Secure::Failed], Some(vsock::Secure::Narrow), &[]);
    assert_eq!(seen, vec![vsock::Secure::Wait, vsock::Secure::Narrow, vsock::Secure::Failed]);
    assert_eq!(error, Some("Narrow".to_string()));
}

#[test]
fn a_suspended_pool_is_resumed() {
    let (seen, _) = walked(pool::Reload::Suspend, &[pool::Reload::Done, pool::Reload::Failed], Some(pool::Reload::CheckLoad), &[]);
    assert_eq!(
        seen,
        vec![
            pool::Reload::Suspend,
            pool::Reload::Load,
            pool::Reload::CheckLoad,
            pool::Reload::Recover,
            pool::Reload::Failed
        ]
    );
    let (seen, _) = walked(pool::Reload::Suspend, &[pool::Reload::Done, pool::Reload::Failed], None, &[]);
    assert_eq!(seen[seen.len() - 2..], [pool::Reload::Resume, pool::Reload::Done]);
    let ends = [thin::Grow::Done, thin::Grow::Failed];
    let (seen, _) = walked(thin::Grow::EnsurePool, &ends, Some(thin::Grow::CheckLoad), &[]);
    assert_eq!(seen[seen.len() - 2..], [thin::Grow::Recover, thin::Grow::Failed]);
    let (seen, _) = walked(thin::Grow::EnsurePool, &ends, Some(thin::Grow::RequireGrowth), &[]);
    assert!(!seen.contains(&thin::Grow::Extend));
    let ends = [thin::ResizeVolume::Done, thin::ResizeVolume::Failed];
    let (seen, _) =
        walked(thin::ResizeVolume::EnsurePool, &ends, Some(thin::ResizeVolume::CheckLoad), &[]);
    assert_eq!(
        seen[seen.len() - 2..],
        [thin::ResizeVolume::Recover, thin::ResizeVolume::Failed]
    );
    let (seen, _) =
        walked(thin::ResizeVolume::EnsurePool, &ends, Some(thin::ResizeVolume::CheckFs), &[]);
    assert!(!seen.contains(&thin::ResizeVolume::GrowFs));
}

#[test]
fn a_pool_is_checked_before_it_is_used() {
    let (seen, _) = walked(thin::Activation::AskPool, &[thin::Activation::Active, thin::Activation::Failed], None, &[thin::Activation::AskPool]);
    let check = seen.iter().position(|p| *p == thin::Activation::CheckMetadata);
    let create = seen.iter().position(|p| *p == thin::Activation::CreatePool);
    assert!(check.is_some() && check < create);
    let (seen, _) = walked(thin::Activation::AskPool, &[thin::Activation::Active, thin::Activation::Failed], None, &[]);
    assert_eq!(seen, vec![thin::Activation::AskPool, thin::Activation::Active]);
    let (seen, _) = walked(thin::Activation::AskPool, &[thin::Activation::Active, thin::Activation::Failed], Some(thin::Activation::CheckMetadata), &[thin::Activation::AskPool]);
    assert_eq!(seen.last(), Some(&thin::Activation::Failed));
    assert!(!seen.contains(&thin::Activation::CreatePool));
}

#[test]
fn a_pool_that_cannot_be_made_leaves_no_loop_devices() {
    let (seen, error) = walked(thin::Init::RequirePath, &[thin::Init::Done, thin::Init::Failed], Some(thin::Init::CreatePool), &[]);
    assert_eq!(
        seen[seen.len() - 5..],
        [thin::Init::CreatePool, thin::Init::DetachMetadata, thin::Init::AskDataLoop, thin::Init::DetachData, thin::Init::Failed]
    );
    assert_eq!(error, Some("CreatePool".to_string()));
    let (seen, _) = walked(thin::Init::RequirePath, &[thin::Init::Done, thin::Init::Failed], None, &[]);
    assert!(seen.contains(&thin::Init::ZeroHead));
}

#[test]
fn volumes_that_cannot_be_finished_are_deleted() {
    let ends = [thin::ImageVolume::Done, thin::ImageVolume::Failed];
    let (seen, error) = walked(thin::ImageVolume::EnsurePool, &ends, Some(thin::ImageVolume::Snapshot), &[]);
    assert_eq!(
        seen[seen.len() - 4..],
        [thin::ImageVolume::ResumeFailed, thin::ImageVolume::DeactivateFailed, thin::ImageVolume::DeleteFailed, thin::ImageVolume::Failed]
    );
    assert_eq!(error, Some("Snapshot".to_string()));
    let (seen, _) = walked(thin::ImageVolume::EnsurePool, &ends, None, &[]);
    assert_eq!(seen[seen.len() - 2..], [thin::ImageVolume::Delete, thin::ImageVolume::Done]);
    let ends = [thin::CloneVolume::Done, thin::CloneVolume::Failed];
    let (seen, _) = walked(thin::CloneVolume::EnsurePool, &ends, Some(thin::CloneVolume::Activate), &[]);
    assert_eq!(seen[seen.len() - 2..], [thin::CloneVolume::Delete, thin::CloneVolume::Failed]);
    let all = [thin::DestroyVolume::EnsurePool, thin::DestroyVolume::AskDevice, thin::DestroyVolume::Deactivate, thin::DestroyVolume::Delete];
    for failing in all {
        let (seen, error) = walked(thin::DestroyVolume::EnsurePool, &[thin::DestroyVolume::Done], Some(failing), &[]);
        assert_eq!((seen.last(), error), (Some(&thin::DestroyVolume::Done), None));
    }
}

#[test]
fn files_outlive_a_teardown_without_purge() {
    let (seen, _) = walked(thin::Teardown::DropImages, &[thin::Teardown::Done, thin::Teardown::Failed], None, &[thin::Teardown::AskPurge]);
    assert!(!seen.contains(&thin::Teardown::RemoveMetadata) && !seen.contains(&thin::Teardown::RemoveData));
    let (seen, _) = walked(thin::Teardown::DropImages, &[thin::Teardown::Done, thin::Teardown::Failed], None, &[]);
    assert!(seen.contains(&thin::Teardown::RemoveMetadata) && seen.contains(&thin::Teardown::RemoveData));
}

#[test]
fn a_failed_mount_leaves_no_directory() {
    let (seen, _) = walked(thin::MountDisk::WaitDevice, &[thin::MountDisk::Mounted, thin::MountDisk::Failed], Some(thin::MountDisk::CheckMount), &[]);
    assert_eq!(seen, vec![thin::MountDisk::WaitDevice, thin::MountDisk::MakeDir, thin::MountDisk::Mount, thin::MountDisk::CheckMount, thin::MountDisk::RemoveDir, thin::MountDisk::Failed]);
    let (seen, _) = walked(thin::OpenVolume::EnsurePool, &[thin::OpenVolume::Done, thin::OpenVolume::Failed], None, &[thin::OpenVolume::AskDevice]);
    assert_eq!(seen[seen.len() - 2..], [thin::OpenVolume::Activate, thin::OpenVolume::Done]);
}

#[test]
fn datasets_that_are_missing_are_created() {
    let (seen, _) = walked(zfs::Init::AskPool, &[zfs::Init::Done, zfs::Init::Failed], None, &[zfs::Init::AskImages]);
    assert_eq!(
        seen,
        vec![zfs::Init::AskPool, zfs::Init::QueryPool, zfs::Init::AskBase, zfs::Init::AskImages, zfs::Init::CreateImages, zfs::Init::AskVms, zfs::Init::Done]
    );
    let (seen, _) = walked(zfs::Init::AskPool, &[zfs::Init::Done, zfs::Init::Failed], None, &[zfs::Init::AskPool]);
    assert_eq!(seen[..3], [zfs::Init::AskPool, zfs::Init::RequireDevice, zfs::Init::CreatePool]);
}

#[test]
fn zvols_that_cannot_be_finished_are_destroyed() {
    let (seen, _) = walked(zfs::ImageVolume::Create, &[zfs::ImageVolume::Done, zfs::ImageVolume::Failed], Some(zfs::ImageVolume::Write), &[]);
    assert_eq!(seen, vec![zfs::ImageVolume::Create, zfs::ImageVolume::Write, zfs::ImageVolume::Destroy, zfs::ImageVolume::Failed]);
    let (seen, _) = walked(zfs::ForkVolume::Snapshot, &[zfs::ForkVolume::Done, zfs::ForkVolume::Failed], Some(zfs::ForkVolume::Clone), &[]);
    assert_eq!(seen, vec![zfs::ForkVolume::Snapshot, zfs::ForkVolume::Clone, zfs::ForkVolume::DestroySnapshot, zfs::ForkVolume::Failed]);
    let ends = [zfs::CloneVolume::Done, zfs::CloneVolume::Failed];
    let (seen, _) = walked(zfs::CloneVolume::AskBase, &ends, Some(zfs::CloneVolume::RequireBase), &[]);
    assert_eq!(seen.last(), Some(&zfs::CloneVolume::Failed));
    let ends = [zfs::ResizeVolume::Done, zfs::ResizeVolume::Failed];
    let (seen, _) = walked(zfs::ResizeVolume::SetSize, &ends, None, &[]);
    assert_eq!(seen[seen.len() - 2..], [zfs::ResizeVolume::GrowFs, zfs::ResizeVolume::Done]);
    let ends = [zfs::Teardown::Done, zfs::Teardown::Failed];
    let (seen, _) = walked(zfs::Teardown::AskPool, &ends, None, &[zfs::Teardown::AskPool]);
    assert_eq!(seen, vec![zfs::Teardown::AskPool, zfs::Teardown::Done]);
}

#[test]
fn a_mounted_disk_is_unmounted() {
    let (seen, error) = walked(Injection::Mount, &[Injection::Done, Injection::Failed], Some(Injection::Inject), &[]);
    assert_eq!(seen, vec![Injection::Mount, Injection::Inject, Injection::UnmountFailed, Injection::Failed]);
    assert_eq!(error, Some("Inject".to_string()));
    let (seen, _) = walked(Injection::Mount, &[Injection::Done, Injection::Failed], None, &[]);
    assert_eq!(seen, vec![Injection::Mount, Injection::Inject, Injection::Unmount, Injection::Done]);
    let broken = || Error::Image("broken".to_string());
    assert_eq!(injected(Ok("user".to_string()), Ok(())), Ok("user".to_string()));
    assert_eq!(injected(Err(broken()), Err(Error::RootRequired)), Err(broken()));
    assert_eq!(injected(Ok("user".to_string()), Err(broken())), Err(broken()));
}

/// Work ends in failure exactly where a failure is reported, whichever phase fails.
#[test]
fn failures_are_reported_exactly_where_work_fails() {
    let ends = [thin::ImageVolume::Done, thin::ImageVolume::Failed];
    let (all, error) = walked(thin::ImageVolume::EnsurePool, &ends, None, &[]);
    assert_eq!(error, None);
    for failing in all {
        let (seen, error) = walked(thin::ImageVolume::EnsurePool, &ends, Some(failing), &[]);
        assert_eq!(error.is_some(), seen.last() == Some(&thin::ImageVolume::Failed), "{:?}", failing);
    }
    let ends = [vm::Start::Started, vm::Start::Failed];
    let (all, error) = walked(vm::Start::RequireNetwork, &ends, None, &[]);
    assert_eq!(error, None);
    for failing in all {
        let (seen, error) = walked(vm::Start::RequireNetwork, &ends, Some(failing), &[]);
        assert_eq!(error.is_some(), seen.last() == Some(&vm::Start::Failed), "{:?}", failing);
    }
}

/// What goes wrong while cleaning up does not hide why.
#[test]
fn the_first_failure_is_reported() {
    let mut run: Run<backend::Setup, &str> = Run::start(backend::Setup::AddRules);
    run.advance(Err("rules"));
    run.advance(Err("tap"));
    run.advance(Err("address"));
    assert_eq!((run.phase, run.error), (backend::Setup::Failed, Some("rules")));
}

/// Walks a plan whose phases follow one another, and lets each of them fail in turn.
fn in_turn<P: Plan + PartialEq + Debug>(phases: &[P], failed: P) {
    let last = phases.len() - 1;
    let ends = [phases[last], failed];
    let (seen, error) = walked(phases[0], &ends, None, &[]);
    assert_eq!((seen, error), (phases.to_vec(), None));
    for i in 0..last {
        let (seen, error) = walked(phases[0], &ends, Some(phases[i]), &[]);
        let mut expected = phases[..=i].to_vec();
        expected.push(failed);
        assert_eq!((seen, error), (expected, Some(format!("{:?}", phases[i]))));
    }
}

#[test]
fn nothing_is_done_before_what_it_needs() {
    in_turn(
        &[zfs::CloneVolume::AskBase, zfs::CloneVolume::RequireBase, zfs::CloneVolume::Clone, zfs::CloneVolume::Done],
        zfs::CloneVolume::Failed,
    );
    in_turn(
        &[
            zfs::ResizeVolume::SetSize,
            zfs::ResizeVolume::WaitDevice,
            zfs::ResizeVolume::CheckFs,
            zfs::ResizeVolume::GrowFs,
            zfs::ResizeVolume::Done,
        ],
        zfs::ResizeVolume::Failed,
    );
    in_turn(
        &[disks::CloneDisk::RequireSource, disks::CloneDisk::MakeDir, disks::CloneDisk::Clone, disks::CloneDisk::Done],
        disks::CloneDisk::Failed,
    );
    in_turn(
        &[
            disks::InjectHostname::WriteHosts,
            disks::InjectHostname::WriteScript,
            disks::InjectHostname::RunScript,
            disks::InjectHostname::Done,
        ],
        disks::InjectHostname::Failed,
    );
}

#[test]
fn what_is_not_there_is_not_destroyed() {
    let ends = [zfs::Teardown::Done, zfs::Teardown::Failed];
    in_turn(&[zfs::Teardown::AskPool, zfs::Teardown::Destroy, zfs::Teardown::Done], zfs::Teardown::Failed);
    let (seen, _) = walked(zfs::Teardown::AskPool, &ends, None, &[zfs::Teardown::AskPool]);
    assert_eq!(seen, vec![zfs::Teardown::AskPool, zfs::Teardown::Done]);
    let ends = [disks::Removal::Done, disks::Removal::Failed];
    in_turn(&[disks::Removal::AskFound, disks::Removal::Remove, disks::Removal::Done], disks::Removal::Failed);
    let (seen, _) = walked(disks::Removal::AskFound, &ends, None, &[disks::Removal::AskFound]);
    assert_eq!(seen, vec![disks::Removal::AskFound, disks::Removal::Done]);
}

#[test]
fn an_active_volume_is_not_activated_again() {
    let ends = [thin::OpenVolume::Done, thin::OpenVolume::Failed];
    in_turn(
        &[
            thin::OpenVolume::EnsurePool,
            thin::OpenVolume::RequireId,
            thin::OpenVolume::AskDevice,
            thin::OpenVolume::Done,
        ],
        thin::OpenVolume::Failed,
    );
    let ask = [thin::OpenVolume::AskDevice];
    let (seen, _) = walked(thin::OpenVolume::EnsurePool, &ends, None, &ask);
    assert_eq!(seen[2..], [thin::OpenVolume::AskDevice, thin::OpenVolume::Activate, thin::OpenVolume::Done]);
    let (seen, error) = walked(thin::OpenVolume::EnsurePool, &ends, Some(thin::OpenVolume::Activate), &ask);
    assert_eq!(seen.last(), Some(&thin::OpenVolume::Failed));
    assert_eq!(error, Some("Activate".to_string()));
}

#[test]
fn a_killed_vm_is_stopped_whatever_else_fails() {
    let ends = [vm::ForceStop::Stopped, vm::ForceStop::Failed];
    for failing in [vm::ForceStop::RequirePid, vm::ForceStop::Kill] {
        let (seen, error) = walked(vm::ForceStop::RequirePid, &ends, Some(failing), &[]);
        assert_eq!(seen.last(), Some(&vm::ForceStop::Failed));
        assert_eq!(error, Some(format!("{failing:?}")));
    }
    for failing in [vm::ForceStop::WaitKilled, vm::ForceStop::RemoveSocket] {
        let (seen, error) = walked(vm::ForceStop::RequirePid, &ends, Some(failing), &[]);
        assert_eq!(
            seen[1..],
            [vm::ForceStop::Kill, vm::ForceStop::WaitKilled, vm::ForceStop::RemoveSocket, vm::ForceStop::Stopped]
        );
        assert_eq!(error, None);
    }
}

#[test]
fn addresses_are_not_discovered() {
    match discover_guest_ip("02:00:00:00:00:01") {
        Err(Error::Network(m)) => {
            assert_eq!(m, "guest IP discovery not supported — IPs are statically allocated");
        }
        other => panic!("{other:?}"),
    }
}

#[test]
fn only_whole_sizes_are_resized_to() {
    assert_eq!(zfs::resize_target(Ok(4)).unwrap(), 4);
    match zfs::resize_target(Err("1536M is no whole number of GiB".to_string())) {
        Err(Error::Zfs(m)) => {
            assert_eq!(m, "invalid resize target: 1536M is no whole number of GiB");
        }
        other => panic!("{other:?}"),
    }
}
