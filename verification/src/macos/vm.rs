//! VMs that run in helper processes of a macOS host.
//!
//! Each VM has a process of the program `ember-vz`. It is told what to boot by its
//! arguments, reports the hardware address of the guest once it has booted, and
//! is controlled by signals.
use crate::backend::StartedVm;
use crate::command;
use crate::command::Cmd;
use crate::error;
use crate::error::Error;
use crate::paths;
use crate::plan;
use crate::plan::{Plan, Reply};
use crate::state::vm::{NetworkInfo, VmMetadata};
use crate::text;
use vstd::prelude::*;

verus! {

/// The VM backend of a macOS host.
#[derive(Clone, Copy, Debug, PartialEq, Eq)]
pub struct MacosVm;

/// What a guest kernel is booted with, before its address is known.
pub const BASE_BOOT_ARGS: &'static str = "console=hvc0 root=/dev/vda rw";

/// How long a VM has to report that it has booted, in seconds.
pub const READY_TIMEOUT_SECS: u64 = 30;

/// Name of the helper program.
pub const EMBER_VZ_BIN: &'static str = "ember-vz";

/// How long a VM has to shut down before it is killed, in milliseconds.
pub const GRACEFUL_SHUTDOWN_TIMEOUT_MS: u64 = 10_000;

/// How long to wait for a killed process, in milliseconds.
pub const FORCE_KILL_TIMEOUT_MS: u64 = 5000;

/// How long to sleep between two looks at a process, in milliseconds.
pub const POLL_INTERVAL_MS: u64 = 50;

/// How long the log of a helper that has ended is left to settle, in milliseconds.
pub const LOG_SETTLE_MS: u64 = 50;

/// How many lines of its log a failed start shows.
pub const LOG_TAIL_LINES: usize = 10;

/// The helper program: the one that the environment names, else the one beside
/// this program, else whatever the search path gives.
pub fn resolve_ember_vz(from_env: Option<&str>, sibling: Option<&str>) -> (r: String)
    ensures
        r@ == (match (from_env, sibling) {
            (Some(p), _) => p@,
            (None, Some(p)) => p@,
            (None, None) => EMBER_VZ_BIN@,
        }),
{
    match (from_env, sibling) {
        (Some(p), _) => p.to_owned(),
        (None, Some(p)) => p.to_owned(),
        (None, None) => EMBER_VZ_BIN.to_owned(),
    }
}

/// What a guest kernel is booted with: the arguments of the VM or the usual ones,
/// and its address where it has one.
pub open spec fn boot_args_text(vm: VmMetadata) -> Seq<char> {
    let base = match vm.boot_args {
        Some(b) => b@,
        None => BASE_BOOT_ARGS@,
    };
    match vm.network {
        Some(net) => base + " ip="@ + net.guest_ip@ + "::"@ + net.host_ip@ + ":"@ + net.netmask@ + ":"@
            + vm.name@ + ":eth0:off"@,
        None => base,
    }
}

/// What a guest kernel is booted with.
pub fn build_boot_args(vm: &VmMetadata) -> (r: String)
    ensures
        r@ == boot_args_text(*vm),
{
    let base = match &vm.boot_args {
        Some(b) => b.clone(),
        None => BASE_BOOT_ARGS.to_owned(),
    };
    match &vm.network {
        Some(net) => {
            let head = text::cat8(
                base.as_str(),
                " ip=",
                net.guest_ip.as_str(),
                "::",
                net.host_ip.as_str(),
                ":",
                net.netmask.as_str(),
                ":",
            );
            text::cat3(head.as_str(), vm.name.as_str(), ":eth0:off")
        },
        None => base,
    }
}

/// Directory of a VM.
pub open spec fn vm_dir_text(state_dir: Seq<char>, vm_name: Seq<char>) -> Seq<char> {
    paths::joined(paths::joined(state_dir, "vms"@), vm_name)
}

/// Directory of a VM.
pub fn vm_dir(state_dir: &str, vm_name: &str) -> (r: String)
    ensures
        r@ == vm_dir_text(state_dir@, vm_name@),
{
    paths::join(paths::join(state_dir, "vms").as_str(), vm_name)
}

/// Where the helper of a VM writes what goes wrong.
pub fn helper_log(state_dir: &str, vm_name: &str) -> (r: String)
    ensures
        r@ == paths::joined(vm_dir_text(state_dir@, vm_name@), "ember-vz.log"@),
{
    paths::join(vm_dir(state_dir, vm_name).as_str(), "ember-vz.log")
}

/// The arguments of the helper, all but those for a vsock device.
pub open spec fn base_start_args(vm: VmMetadata, state_dir: Seq<char>, ready_fd: i32) -> Seq<Seq<char>> {
    seq![
        "start"@,
        "--kernel"@,
        vm.kernel_path@,
        "--disk"@,
        vm.disk_path@,
        "--cpus"@,
        text::dec(vm.cpus as nat),
        "--memory"@,
        text::dec(vm.memory_mib as nat),
        "--boot-args"@,
        boot_args_text(vm),
        "--network"@,
        "shared"@,
        "--serial-log"@,
        paths::joined(vm_dir_text(state_dir, vm.name@), "console.log"@),
        "--ready-fd"@,
        text::dec_int(ready_fd as int),
    ]
}

/// The arguments of the helper.
pub open spec fn start_args(vm: VmMetadata, state_dir: Seq<char>, ready_fd: i32) -> Seq<Seq<char>> {
    match vm.vsock {
        Some(v) => base_start_args(vm, state_dir, ready_fd) + seq!["--vsock-path"@, v.uds_path@],
        None => base_start_args(vm, state_dir, ready_fd),
    }
}

/// Whether a helper that reads its arguments boots the VM: it is told to start, and
/// finds behind each option what the VM has of that name.
pub open spec fn boots(
    args: Seq<Seq<char>>,
    vm: VmMetadata,
    state_dir: Seq<char>,
    ready_fd: i32,
) -> bool {
    &&& args.len() % 2 == 1
    &&& args[0] == "start"@
    &&& command::option_is(args, 1, "--kernel"@, vm.kernel_path@)
    &&& command::option_is(args, 1, "--disk"@, vm.disk_path@)
    &&& command::option_is(args, 1, "--cpus"@, text::dec(vm.cpus as nat))
    &&& command::option_is(args, 1, "--memory"@, text::dec(vm.memory_mib as nat))
    &&& command::option_is(args, 1, "--boot-args"@, boot_args_text(vm))
    &&& command::option_is(args, 1, "--network"@, "shared"@)
    &&& command::option_is(
        args,
        1,
        "--serial-log"@,
        paths::joined(
            paths::joined(paths::joined(state_dir, "vms"@), vm.name@),
            "console.log"@,
        ),
    )
    &&& command::option_is(args, 1, "--ready-fd"@, text::dec_int(ready_fd as int))
    &&& match vm.vsock {
        Some(v) => command::option_is(args, 1, "--vsock-path"@, v.uds_path@),
        None => command::option_absent(args, 1, "--vsock-path"@),
    }
}

/// The helper gets each resource of the VM behind the option of its name: the number
/// of processors as such, the memory as such, and so on, each once; and a path for
/// vsock exactly where the VM has one.
pub proof fn law_helper_gets_what_the_vm_has(vm: VmMetadata, state_dir: Seq<char>, ready_fd: i32)
    ensures
        boots(start_args(vm, state_dir, ready_fd), vm, state_dir, ready_fd),
{
    let args = start_args(vm, state_dir, ready_fd);
    reveal_strlit("--kernel");
    reveal_strlit("--disk");
    reveal_strlit("--cpus");
    reveal_strlit("--memory");
    reveal_strlit("--boot-args");
    reveal_strlit("--network");
    reveal_strlit("--serial-log");
    reveal_strlit("--ready-fd");
    reveal_strlit("--vsock-path");
    assert("--kernel"@.len() == 8 && "--disk"@.len() == 6 && "--cpus"@.len() == 6);
    assert("--memory"@.len() == 8 && "--boot-args"@.len() == 11 && "--network"@.len() == 9);
    assert("--serial-log"@.len() == 12 && "--ready-fd"@.len() == 10);
    assert("--vsock-path"@.len() == 12 && "--kernel"@[2] == 'k' && "--memory"@[2] == 'm');
    assert("--disk"@[2] == 'd' && "--cpus"@[2] == 'c' && "--serial-log"@[2] == 's');
    assert("--vsock-path"@[2] == 'v');
    assert(args[1] == "--kernel"@ && args[3] == "--disk"@ && args[5] == "--cpus"@ && args[7] == "--memory"@);
    assert(args[9] == "--boot-args"@ && args[11] == "--network"@ && args[13] == "--serial-log"@ && args[15] == "--ready-fd"@);
    assert(vm.vsock is Some ==> args[17] == "--vsock-path"@);
    assert forall|i: int| 1 <= i < args.len() && #[trigger] (i % 2) == 1 implies i == 1 || i == 3 || i
        == 5 || i == 7 || i == 9 || i == 11 || i == 13 || i == 15 || (vm.vsock is Some && i == 17) by {
    }
    command::lemma_option(args, 1, 1, "--kernel"@, vm.kernel_path@);
    command::lemma_option(args, 1, 3, "--disk"@, vm.disk_path@);
    command::lemma_option(args, 1, 5, "--cpus"@, text::dec(vm.cpus as nat));
    command::lemma_option(args, 1, 7, "--memory"@, text::dec(vm.memory_mib as nat));
    command::lemma_option(args, 1, 9, "--boot-args"@, boot_args_text(vm));
    command::lemma_option(args, 1, 11, "--network"@, "shared"@);
    command::lemma_option(args, 1, 13, "--serial-log"@, paths::joined(vm_dir_text(state_dir, vm.name@), "console.log"@));
    command::lemma_option(args, 1, 15, "--ready-fd"@, text::dec_int(ready_fd as int));
    if vm.vsock is Some {
        command::lemma_option(args, 1, 17, "--vsock-path"@, vm.vsock->0.uds_path@);
    }
}

/// The command that starts the helper of a VM. It reports through the file
/// descriptor `ready_fd`.
pub fn start_command(program: &str, vm: &VmMetadata, state_dir: &str, ready_fd: i32) -> (r: Cmd)
    ensures
        r@ == command::cmd(
            program@,
            start_args(*vm, state_dir@, ready_fd),
            EMBER_VZ_BIN@,
            EMBER_VZ_BIN@,
        ),
        boots(r@.args, *vm, state_dir@, ready_fd),
{
    proof {
        law_helper_gets_what_the_vm_has(*vm, state_dir@, ready_fd);
    }
    let cpus = text::dec_u64(vm.cpus as u64);
    let memory = text::dec_u64(vm.memory_mib as u64);
    let boot_args = build_boot_args(vm);
    let console = paths::join(vm_dir(state_dir, vm.name.as_str()).as_str(), "console.log");
    let fd = text::dec_i32(ready_fd);
    let mut c = command::command(
        program,
        &[
            "start",
            "--kernel",
            vm.kernel_path.as_str(),
            "--disk",
            vm.disk_path.as_str(),
            "--cpus",
            cpus.as_str(),
            "--memory",
            memory.as_str(),
            "--boot-args",
            boot_args.as_str(),
            "--network",
            "shared",
            "--serial-log",
            console.as_str(),
            "--ready-fd",
            fd.as_str(),
        ],
        EMBER_VZ_BIN,
        EMBER_VZ_BIN,
    );
    assert(c@.args =~= base_start_args(*vm, state_dir@, ready_fd));
    if let Some(v) = &vm.vsock {
        let flag = "--vsock-path".to_owned();
        let path = v.uds_path.clone();
        proof {
            text::lemma_views_push(c.args@, flag);
            text::lemma_views_push(c.args@.push(flag), path);
        }
        c.args.push(flag);
        c.args.push(path);
        assert(c@.args =~= start_args(*vm, state_dir@, ready_fd));
    }
    c
}

/// Starting a VM. The helper is started and waited for; where it does not report,
/// it is seen to its end and what it left is gathered.
#[derive(Clone, Copy, Debug, PartialEq, Eq, Structural)]
pub enum Start {
    /// Make the pipe for its report.
    MakePipe,
    /// Open its log; where that fails, what it says is lost.
    OpenLog,
    /// Start the helper.
    Spawn,
    /// Wait for its report.
    ReadMac,
    /// Ask whether it has exited; an error where that cannot be told.
    AskExited,
    /// Kill it.
    Kill,
    /// Wait for it to be gone.
    Reap,
    /// Wait a moment for its last words.
    Settle,
    /// Keep a copy of its log.
    Preserve,
    /// Read the end of its log.
    ReadTail,
    /// The VM runs.
    Started,
    /// It does not.
    Failed,
}

impl Plan for Start {
    open spec fn next(self, r: Reply) -> Self {
        match self {
            Start::MakePipe => match r {
                Reply::Error => Start::Failed,
                _ => Start::OpenLog,
            },
            Start::OpenLog => Start::Spawn,
            Start::Spawn => match r {
                Reply::Error => Start::Failed,
                _ => Start::ReadMac,
            },
            Start::ReadMac => match r {
                Reply::Error => Start::AskExited,
                _ => Start::Started,
            },
            Start::AskExited => match r {
                Reply::Yes => Start::Settle,
                Reply::No => Start::Kill,
                Reply::Error => Start::Settle,
            },
            Start::Kill => Start::Reap,
            Start::Reap => Start::Settle,
            Start::Settle => Start::Preserve,
            Start::Preserve => Start::ReadTail,
            Start::ReadTail => Start::Failed,
            Start::Started => Start::Started,
            Start::Failed => Start::Failed,
        }
    }

    open spec fn lenient(self) -> bool {
        self == Start::OpenLog || self == Start::AskExited || self == Start::Kill
            || self == Start::Reap || self == Start::Settle || self == Start::Preserve
            || self == Start::ReadTail
    }

    open spec fn ended(self) -> bool {
        self == Start::Started || self == Start::Failed
    }

    open spec fn doomed(self) -> bool {
        match self {
            Start::AskExited | Start::Kill | Start::Reap | Start::Settle | Start::Preserve
            | Start::ReadTail | Start::Failed => true,
            _ => false,
        }
    }

    open spec fn left(self) -> nat {
        match self {
            Start::MakePipe => 10,
            Start::OpenLog => 9,
            Start::Spawn => 8,
            Start::ReadMac => 7,
            Start::AskExited => 6,
            Start::Kill => 5,
            Start::Reap => 4,
            Start::Settle => 3,
            Start::Preserve => 2,
            Start::ReadTail => 1,
            _ => 0,
        }
    }

    fn step(self, r: Reply) -> (p: Self) {
        match self {
            Start::MakePipe => match r {
                Reply::Error => Start::Failed,
                _ => Start::OpenLog,
            },
            Start::OpenLog => Start::Spawn,
            Start::Spawn => match r {
                Reply::Error => Start::Failed,
                _ => Start::ReadMac,
            },
            Start::ReadMac => match r {
                Reply::Error => Start::AskExited,
                _ => Start::Started,
            },
            Start::AskExited => match r {
                Reply::Yes => Start::Settle,
                Reply::No => Start::Kill,
                Reply::Error => Start::Settle,
            },
            Start::Kill => Start::Reap,
            Start::Reap => Start::Settle,
            Start::Settle => Start::Preserve,
            Start::Preserve => Start::ReadTail,
            Start::ReadTail => Start::Failed,
            Start::Started => Start::Started,
            Start::Failed => Start::Failed,
        }
    }

    fn is_lenient(self) -> (b: bool) {
        match self {
            Start::OpenLog | Start::AskExited | Start::Kill | Start::Reap | Start::Settle
            | Start::Preserve | Start::ReadTail => true,
            _ => false,
        }
    }

    proof fn lemma_ends(self, r: Reply) {
    }
}

/// Whether a phase comes after a helper that did not report.
pub open spec fn gives_up(p: Start) -> bool {
    match p {
        Start::AskExited | Start::Kill | Start::Reap | Start::Settle | Start::Preserve
        | Start::ReadTail => true,
        _ => false,
    }
}

/// A helper that was started either reports, or is given up: then it is seen whether
/// it still runs, it is killed and waited for where it does, its log is kept before
/// it is read, and the start fails. Nothing is killed that was not found running.
pub proof fn law_failed_helper_is_gathered(replies: Seq<Reply>)
    ensures
        ({
            let p = Start::MakePipe;
            let end = plan::reached(p, replies);
            &&& end == Start::Started ==> plan::manages(p, replies, Start::ReadMac)
            &&& end == Start::Failed && plan::manages(p, replies, Start::Spawn)
                ==> plan::does(p, replies, Start::AskExited)
            &&& end.ended() && plan::gets(p, replies, Start::AskExited, Reply::No)
                ==> plan::does(p, replies, Start::Kill)
            &&& end.ended() && plan::gets(p, replies, Start::AskExited, Reply::No)
                ==> plan::does(p, replies, Start::Reap)
            &&& end == Start::Failed && plan::manages(p, replies, Start::Spawn)
                ==> plan::does(p, replies, Start::Preserve)
            &&& end == Start::Failed && plan::manages(p, replies, Start::Spawn)
                ==> plan::does(p, replies, Start::ReadTail)
            &&& plan::does(p, replies, Start::ReadTail) ==> plan::does(p, replies, Start::Preserve)
            &&& plan::does(p, replies, Start::Kill)
                ==> plan::gets(p, replies, Start::AskExited, Reply::No)
        }),
{
    let p = Start::MakePipe;
    plan::lemma_way_in(p, replies, |x: Start| x == Start::Started, plan::managing(Start::ReadMac));
    plan::lemma_way_out(
        p,
        replies,
        plan::managing(Start::Spawn),
        |x: Start| x == Start::ReadMac || x == Start::Started || x == Start::AskExited,
        plan::doing(Start::AskExited),
    );
    plan::lemma_way_out(
        p,
        replies,
        plan::getting(Start::AskExited, Reply::No),
        |x: Start| x == Start::Kill,
        plan::doing(Start::Kill),
    );
    plan::lemma_way_out(
        p,
        replies,
        plan::getting(Start::AskExited, Reply::No),
        |x: Start| x == Start::Kill || x == Start::Reap,
        plan::doing(Start::Reap),
    );
    plan::lemma_way_out(
        p,
        replies,
        plan::managing(Start::Spawn),
        |x: Start|
            x != Start::MakePipe && x != Start::OpenLog && x != Start::Spawn
                && x != Start::ReadTail && x != Start::Failed,
        plan::doing(Start::Preserve),
    );
    plan::lemma_way_out(
        p,
        replies,
        plan::managing(Start::Spawn),
        |x: Start|
            x != Start::MakePipe && x != Start::OpenLog && x != Start::Spawn
                && x != Start::Failed,
        plan::doing(Start::ReadTail),
    );
    plan::lemma_way_in(p, replies, |x: Start| x == Start::ReadTail, plan::doing(Start::Preserve));
    plan::lemma_way_in(
        p,
        replies,
        |x: Start| x == Start::Kill,
        plan::getting(Start::AskExited, Reply::No),
    );
}

/// What a start reports, where it fails, is why the helper did not report; what
/// goes wrong afterwards changes nothing.
pub proof fn law_first_cause_is_reported(p: Start, error: Option<Error>, outcome: Result<bool, Error>)
    requires
        gives_up(p),
    ensures
        crate::plan::reported(p, error, outcome) == error,
{
}

/// How a process ended.
#[derive(Clone, Copy, Debug, PartialEq, Eq, Structural)]
pub struct Exit {
    pub code: Option<i32>,
    pub signal: Option<i32>,
}

/// How the end of a process reads.
pub open spec fn exit_text(exit: Exit) -> Seq<char> {
    match (exit.code, exit.signal) {
        (Some(code), _) => "exit code "@ + text::dec_int(code as int),
        (None, Some(signal)) => "killed by signal "@ + text::dec_int(signal as int),
        (None, None) => "unknown exit"@,
    }
}

/// How the end of a process reads.
pub fn format_exit(exit: Exit) -> (r: String)
    ensures
        r@ == exit_text(exit),
{
    match (exit.code, exit.signal) {
        (Some(code), _) => text::cat2("exit code ", text::dec_i32(code).as_str()),
        (None, Some(signal)) => text::cat2("killed by signal ", text::dec_i32(signal).as_str()),
        (None, None) => "unknown exit".to_owned(),
    }
}

/// The last `n` lines of a text.
pub open spec fn last_lines(content: Seq<char>, n: nat) -> Seq<Seq<char>> {
    let v = text::lines(content);
    if v.len() <= n {
        v
    } else {
        v.skip(v.len() - n)
    }
}

/// The last `n` lines of a file; none where it could not be read.
pub fn read_last_lines(content: Option<&str>, n: usize) -> (r: Vec<String>)
    ensures
        text::views(r@) == (match content {
            Some(c) => last_lines(c@, n as nat),
            None => Seq::empty(),
        }),
{
    let content = match content {
        Some(c) => c,
        None => {
            let r: Vec<String> = Vec::new();
            assert(text::views(r@) =~= Seq::<Seq<char>>::empty());
            return r;
        },
    };
    let lines = text::split_lines(content);
    let ghost v = text::views(lines@);
    let start: usize = if lines.len() <= n {
        0
    } else {
        lines.len() - n
    };
    let mut out: Vec<String> = Vec::new();
    let mut i: usize = start;
    assert(text::views(out@) =~= Seq::<Seq<char>>::empty());
    assert(v.subrange(start as int, start as int) =~= Seq::<Seq<char>>::empty());
    while i < lines.len()
        invariant
            start <= i <= lines.len(),
            v == text::views(lines@),
            text::views(out@) == v.subrange(start as int, i as int),
        decreases lines.len() - i,
    {
        let s = lines[i].clone();
        proof {
            text::lemma_views_push(out@, s);
            assert(v.subrange(start as int, i + 1) =~= v.subrange(start as int, i as int).push(s@));
        }
        out.push(s);
        i += 1;
    }
    assert(v.subrange(start as int, v.len() as int) =~= last_lines(content@, n as nat));
    out
}

/// What a failed start shows of the log: its last lines, how the helper ended
/// where that is known, and a hint where the log is empty.
pub open spec fn shown_tail(tail: Seq<Seq<char>>, exit: Option<Exit>) -> Seq<Seq<char>> {
    match exit {
        None => tail,
        Some(x) => {
            let end = "(ember-vz process: "@ + exit_text(x) + ")"@;
            if tail.len() == 0 {
                seq![no_output_hint(), end]
            } else {
                tail.push(end)
            }
        },
    }
}

/// The hint where a helper ended without a word.
pub open spec fn no_output_hint() -> Seq<char> {
    "(no diagnostic output — see SEC-445 wedge notes if this repeats; restarting ember/host typically recovers)"@
}

/// The error of a start that failed for the given reason.
pub fn start_failure(
    cause: Error,
    tail: Vec<String>,
    exit: Option<Exit>,
    preserved: Option<String>,
) -> (e: Error)
    ensures
        e matches Error::EmberVzStartFailed { source, stderr_tail, preserved_log_path } && *source
            == cause && text::views(stderr_tail@) == shown_tail(text::views(tail@), exit)
            && preserved_log_path == preserved,
{
    let mut shown = tail;
    let ghost t = text::views(tail@);
    if let Some(x) = exit {
        let end = text::cat3("(ember-vz process: ", format_exit(x).as_str(), ")");
        if shown.len() == 0 {
            let hint =
                "(no diagnostic output — see SEC-445 wedge notes if this repeats; restarting ember/host typically recovers)".to_owned();
            proof {
                assert(t =~= Seq::<Seq<char>>::empty());
                text::lemma_views_push(shown@, hint);
            }
            shown.push(hint);
        }
        proof {
            text::lemma_views_push(shown@, end);
        }
        shown.push(end);
        assert(text::views(shown@) =~= shown_tail(t, exit));
    }
    Error::EmberVzStartFailed {
        source: Box::new(cause),
        stderr_tail: shown,
        preserved_log_path: preserved,
    }
}

/// What a failed start reports, given the phase that failed: where the helper did
/// not report, what it left is shown beside the cause.
pub fn start_error(
    failed: Start,
    cause: Error,
    tail: Vec<String>,
    exit: Option<Exit>,
    preserved: Option<String>,
) -> (e: Error)
    ensures
        if failed == Start::ReadMac {
            e matches Error::EmberVzStartFailed { source, stderr_tail, preserved_log_path }
                && *source == cause && text::views(stderr_tail@) == shown_tail(
                text::views(tail@),
                exit,
            ) && preserved_log_path == preserved
        } else {
            e == cause
        },
{
    match failed {
        Start::ReadMac => start_failure(cause, tail, exit, preserved),
        _ => cause,
    }
}

/// Where the log of a failed start is kept: named after the VM and the time, to
/// the nanosecond.
pub open spec fn preserved_text(state_dir: Seq<char>, vm_name: Seq<char>, secs: nat, nanos: nat) -> Seq<
    char,
> {
    paths::joined(
        paths::joined(state_dir, "failed-starts"@),
        preserved_name(vm_name, secs, nanos),
    )
}

pub open spec fn preserved_name(vm_name: Seq<char>, secs: nat, nanos: nat) -> Seq<char> {
    vm_name + "-"@ + text::dec(secs) + "-"@ + text::dec_fixed(nanos, 9) + ".log"@
}

/// Directory of the logs of failed starts.
pub fn preserved_dir(state_dir: &str) -> (r: String)
    ensures
        r@ == paths::joined(state_dir@, "failed-starts"@),
{
    paths::join(state_dir, "failed-starts")
}

/// Where the log of a failed start is kept.
pub fn preserve_ember_vz_log(state_dir: &str, vm_name: &str, secs: u64, nanos: u32) -> (r: String)
    requires
        nanos < 1_000_000_000,
    ensures
        r@ == preserved_text(state_dir@, vm_name@, secs as nat, nanos as nat),
{
    let name = text::cat6(
        vm_name,
        "-",
        text::dec_u64(secs).as_str(),
        "-",
        text::dec_padded(nanos as u64, 9).as_str(),
        ".log",
    );
    paths::join(preserved_dir(state_dir).as_str(), name.as_str())
}

/// No two failed starts share the name of a log: names differ where the VM or the
/// time does.
pub proof fn law_preserved_logs_do_not_collide(
    vm1: Seq<char>,
    secs1: nat,
    nanos1: nat,
    vm2: Seq<char>,
    secs2: nat,
    nanos2: nat,
)
    requires
        nanos1 < 1_000_000_000,
        nanos2 < 1_000_000_000,
        preserved_name(vm1, secs1, nanos1) == preserved_name(vm2, secs2, nanos2),
    ensures
        vm1 == vm2,
        secs1 == secs2,
        nanos1 == nanos2,
{
    reveal_strlit("-");
    reveal_strlit(".log");
    text::lemma_dec_fixed(nanos1, 9);
    text::lemma_dec_fixed(nanos2, 9);
    lemma_nine_digits();
    let n1 = text::dec_fixed(nanos1, 9);
    let n2 = text::dec_fixed(nanos2, 9);
    let s1 = preserved_name(vm1, secs1, nanos1);
    let s2 = preserved_name(vm2, secs2, nanos2);
    let len = s1.len() as int;
    assert(n1 =~= s1.subrange(len - 13, len - 4));
    assert(n2 =~= s2.subrange(len - 13, len - 4));
    let h1 = vm1 + "-"@ + text::dec(secs1);
    let h2 = vm2 + "-"@ + text::dec(secs2);
    assert(h1 =~= s1.take(len - 14));
    assert(h2 =~= s2.take(len - 14));
    text::lemma_value_of_dec(secs1);
    text::lemma_value_of_dec(secs2);
    lemma_last_dash(vm1, text::dec(secs1), vm2, text::dec(secs2));
}

proof fn lemma_nine_digits()
    ensures
        vstd::arithmetic::power::pow(10, 9) == 1_000_000_000,
{
    reveal_with_fuel(vstd::arithmetic::power::pow, 10);
}

proof fn lemma_last_dash(a1: Seq<char>, d1: Seq<char>, a2: Seq<char>, d2: Seq<char>)
    requires
        text::all_digits(d1),
        text::all_digits(d2),
        a1 + "-"@ + d1 == a2 + "-"@ + d2,
    ensures
        a1 == a2,
        d1 == d2,
{
    reveal_strlit("-");
    let s1 = a1 + "-"@ + d1;
    let s2 = a2 + "-"@ + d2;
    assert(s1.len() == a1.len() + 1 + d1.len());
    assert(s2.len() == a2.len() + 1 + d2.len());
    assert(s1[a1.len() as int] == '-');
    assert(s2[a2.len() as int] == '-');
    if a1.len() < a2.len() {
        assert(s1[a2.len() as int] == d1[a2.len() - a1.len() - 1]);
        assert(text::is_digit(d1[a2.len() - a1.len() - 1]));
    } else if a2.len() < a1.len() {
        assert(s2[a1.len() as int] == d2[a1.len() - a2.len() - 1]);
        assert(text::is_digit(d2[a1.len() - a2.len() - 1]));
    }
    assert(a1 =~= s1.take(a1.len() as int));
    assert(a2 =~= s2.take(a2.len() as int));
    assert(d1 =~= s1.skip(a1.len() as int + 1));
    assert(d2 =~= s2.skip(a2.len() as int + 1));
}

/// What came of waiting for the report.
#[derive(Debug, PartialEq, Eq)]
pub enum Polled {
    /// Something can be read.
    Ready,
    /// Nothing came in time.
    TimedOut,
    /// Waiting failed.
    Failed(String),
}

/// Whether the report can be read.
pub fn polled(p: &Polled, timeout_secs: u64) -> (r: Result<(), Error>)
    ensures
        match *p {
            Polled::Ready => r is Ok,
            Polled::TimedOut => r is Err && error::is_vm(
                r->Err_0,
                "timed out waiting for ember-vz to report VM readiness ("@ + text::dec(
                    timeout_secs as nat,
                ) + "s)"@,
            ),
            Polled::Failed(why) => r is Err && error::is_vm(
                r->Err_0,
                "poll on ready-fd failed: "@ + why@,
            ),
        },
{
    match p {
        Polled::Ready => Ok(()),
        Polled::TimedOut => Err(
            Error::Vm(
                text::cat3(
                    "timed out waiting for ember-vz to report VM readiness (",
                    text::dec_u64(timeout_secs).as_str(),
                    "s)",
                ),
            ),
        ),
        Polled::Failed(why) => Err(
            Error::Vm(text::cat2("poll on ready-fd failed: ", why.as_str())),
        ),
    }
}

/// The hardware address in the line that a helper reported; the error says why
/// where there is none.
pub fn read_mac_from_ready_fd(line: Result<String, String>) -> (r: Result<String, Error>)
    ensures
        match line {
            Err(why) => r is Err && error::is_vm(
                r->Err_0,
                "failed to read MAC from ready-fd: "@ + why@,
            ),
            Ok(l) => if text::trim(l@).len() == 0 {
                r is Err && error::is_vm(
                    r->Err_0,
                    "ember-vz closed ready-fd without writing MAC address (VM may have crashed)"@,
                )
            } else {
                r is Ok && r->Ok_0@ == text::trim(l@)
            },
        },
{
    match line {
        Err(why) => Err(
            Error::Vm(text::cat2("failed to read MAC from ready-fd: ", why.as_str())),
        ),
        Ok(l) => {
            let mac = text::trimmed(l.as_str());
            if mac.as_str().is_empty() {
                Err(
                    Error::Vm(
                        "ember-vz closed ready-fd without writing MAC address (VM may have crashed)".to_owned(),
                    ),
                )
            } else {
                Ok(mac)
            }
        },
    }
}

fn copy_opt(s: &Option<String>) -> (r: Option<String>)
    ensures
        r == *s,
{
    match s {
        Some(t) => Some(t.clone()),
        None => None,
    }
}

/// A VM that was started: its network as it was set up, with the hardware address
/// that the helper reported.
pub fn started(vm: &VmMetadata, pid: u32, mac: String) -> (r: StartedVm)
    ensures
        r.pid == pid,
        r.network.guest_mac == Some(mac),
        match vm.network {
            Some(n) => r.network.tap_device == n.tap_device && r.network.host_ip == n.host_ip
                && r.network.guest_ip == n.guest_ip && r.network.netmask == n.netmask
                && r.network.wan_iface == n.wan_iface,
            None => r.network.tap_device@.len() == 0 && r.network.host_ip@.len() == 0
                && r.network.guest_ip@.len() == 0 && r.network.netmask@.len() == 0
                && r.network.wan_iface is None,
        },
{
    let network = match &vm.network {
        Some(n) => NetworkInfo {
            tap_device: n.tap_device.clone(),
            host_ip: n.host_ip.clone(),
            guest_ip: n.guest_ip.clone(),
            netmask: n.netmask.clone(),
            guest_mac: Some(mac),
            wan_iface: copy_opt(&n.wan_iface),
        },
        None => NetworkInfo {
            tap_device: String::new(),
            host_ip: String::new(),
            guest_ip: String::new(),
            netmask: String::new(),
            guest_mac: Some(mac),
            wan_iface: None,
        },
    };
    StartedVm { pid, network }
}

/// The process of a VM.
pub fn require_pid(vm: &VmMetadata) -> (r: Result<u32, Error>)
    ensures
        match r {
            Ok(p) => vm.pid == Some(p),
            Err(e) => vm.pid is None && error::is_vm(e, "vm '"@ + vm.name@ + "' has no PID"@),
        },
{
    match vm.pid {
        Some(p) => Ok(p),
        None => Err(Error::Vm(text::cat3("vm '", vm.name.as_str(), "' has no PID"))),
    }
}

/// A signal for a helper.
#[derive(Clone, Copy, Debug, PartialEq, Eq, Structural)]
pub enum HelperSignal {
    /// Shut the VM down.
    Terminate,
    /// End at once.
    Kill,
    /// Freeze the VM.
    Pause,
    /// Let it go on.
    Resume,
}

impl HelperSignal {
    pub open spec fn text(self) -> Seq<char> {
        match self {
            HelperSignal::Terminate => "SIGTERM"@,
            HelperSignal::Kill => "SIGKILL"@,
            HelperSignal::Pause => "SIGUSR1 (pause)"@,
            HelperSignal::Resume => "SIGUSR2 (resume)"@,
        }
    }

    /// How the signal is called in messages.
    pub fn name(self) -> (r: &'static str)
        ensures
            r@ == self.text(),
    {
        match self {
            HelperSignal::Terminate => "SIGTERM",
            HelperSignal::Kill => "SIGKILL",
            HelperSignal::Pause => "SIGUSR1 (pause)",
            HelperSignal::Resume => "SIGUSR2 (resume)",
        }
    }
}

/// What came of sending a signal.
#[derive(Debug, PartialEq, Eq)]
pub enum Sent {
    Delivered,
    /// There is no such process.
    NoProcess(String),
    /// It could not be sent, for the given reason.
    Failed(String),
}

pub open spec fn signal_error_text(signal: HelperSignal, pid: u32, why: Seq<char>) -> Seq<char> {
    "failed to send "@ + signal.text() + " to ember-vz (pid "@ + text::dec(pid as nat) + "): "@ + why
}

/// The error of a signal that could not be sent.
pub fn signal_error(signal: HelperSignal, pid: u32, why: &str) -> (e: Error)
    ensures
        error::is_vm(e, signal_error_text(signal, pid, why@)),
{
    Error::Vm(
        text::cat6(
            "failed to send ",
            signal.name(),
            " to ember-vz (pid ",
            text::dec_u64(pid as u64).as_str(),
            "): ",
            why,
        ),
    )
}

/// What came of a signal that ends a VM: yes where it was delivered, no where the
/// process is gone already.
pub fn ending_signal(signal: HelperSignal, pid: u32, sent: &Sent) -> (r: Result<bool, Error>)
    ensures
        match *sent {
            Sent::Delivered => r == Ok::<bool, Error>(true),
            Sent::NoProcess(_) => r == Ok::<bool, Error>(false),
            Sent::Failed(why) => r is Err && error::is_vm(
                r->Err_0,
                signal_error_text(signal, pid, why@),
            ),
        },
{
    match sent {
        Sent::Delivered => Ok(true),
        Sent::NoProcess(_) => Ok(false),
        Sent::Failed(why) => Err(signal_error(signal, pid, why.as_str())),
    }
}

/// What came of a signal that pauses or resumes a VM. A process that is gone is an
/// error.
pub fn control_signal(signal: HelperSignal, pid: u32, sent: &Sent) -> (r: Result<(), Error>)
    ensures
        match *sent {
            Sent::Delivered => r is Ok,
            Sent::NoProcess(why) => r is Err && error::is_vm(
                r->Err_0,
                signal_error_text(signal, pid, why@),
            ),
            Sent::Failed(why) => r is Err && error::is_vm(
                r->Err_0,
                signal_error_text(signal, pid, why@),
            ),
        },
{
    match sent {
        Sent::Delivered => Ok(()),
        Sent::NoProcess(why) => Err(signal_error(signal, pid, why.as_str())),
        Sent::Failed(why) => Err(signal_error(signal, pid, why.as_str())),
    }
}

/// What to do while waiting for a process to exit.
#[derive(Clone, Copy, Debug, PartialEq, Eq, Structural)]
pub enum ExitWait {
    Gone,
    Sleep,
    StillThere,
}

/// What to do after a look at a process, so many milliseconds after the start. The
/// last look comes when the time is over.
pub fn wait_for_exit(elapsed_ms: u64, timeout_ms: u64, running: bool) -> (r: ExitWait)
    ensures
        r == (if !running {
            ExitWait::Gone
        } else if elapsed_ms < timeout_ms {
            ExitWait::Sleep
        } else {
            ExitWait::StillThere
        }),
{
    if !running {
        ExitWait::Gone
    } else if elapsed_ms < timeout_ms {
        ExitWait::Sleep
    } else {
        ExitWait::StillThere
    }
}

/// Stopping a VM: it is asked to shut down, and killed where it does not.
#[derive(Clone, Copy, Debug, PartialEq, Eq, Structural)]
pub enum Stop {
    /// See that the VM has a process.
    RequirePid,
    /// Ask it to shut down; no where it is gone already.
    Terminate,
    /// Wait for it to exit; no where it does not.
    WaitExit,
    /// Kill it.
    Kill,
    /// Wait for it to be gone.
    WaitKilled,
    /// The VM is stopped.
    Stopped,
    /// It may not be.
    Failed,
}

impl Plan for Stop {
    open spec fn next(self, r: Reply) -> Self {
        match self {
            Stop::RequirePid => match r {
                Reply::Error => Stop::Failed,
                _ => Stop::Terminate,
            },
            Stop::Terminate => match r {
                Reply::Yes => Stop::WaitExit,
                Reply::No => Stop::Stopped,
                Reply::Error => Stop::Failed,
            },
            Stop::WaitExit => match r {
                Reply::Yes => Stop::Stopped,
                _ => Stop::Kill,
            },
            Stop::Kill => Stop::WaitKilled,
            Stop::WaitKilled => Stop::Stopped,
            Stop::Stopped => Stop::Stopped,
            Stop::Failed => Stop::Failed,
        }
    }

    open spec fn lenient(self) -> bool {
        self == Stop::WaitExit || self == Stop::Kill || self == Stop::WaitKilled
    }

    open spec fn ended(self) -> bool {
        self == Stop::Stopped || self == Stop::Failed
    }

    open spec fn doomed(self) -> bool {
        self == Stop::Failed
    }

    open spec fn left(self) -> nat {
        match self {
            Stop::RequirePid => 5,
            Stop::Terminate => 4,
            Stop::WaitExit => 3,
            Stop::Kill => 2,
            Stop::WaitKilled => 1,
            _ => 0,
        }
    }

    fn step(self, r: Reply) -> (p: Self) {
        match self {
            Stop::RequirePid => match r {
                Reply::Error => Stop::Failed,
                _ => Stop::Terminate,
            },
            Stop::Terminate => match r {
                Reply::Yes => Stop::WaitExit,
                Reply::No => Stop::Stopped,
                Reply::Error => Stop::Failed,
            },
            Stop::WaitExit => match r {
                Reply::Yes => Stop::Stopped,
                _ => Stop::Kill,
            },
            Stop::Kill => Stop::WaitKilled,
            Stop::WaitKilled => Stop::Stopped,
            Stop::Stopped => Stop::Stopped,
            Stop::Failed => Stop::Failed,
        }
    }

    fn is_lenient(self) -> (b: bool) {
        match self {
            Stop::WaitExit | Stop::Kill | Stop::WaitKilled => true,
            _ => false,
        }
    }

    proof fn lemma_ends(self, r: Reply) {
    }
}

/// Killing a VM.
#[derive(Clone, Copy, Debug, PartialEq, Eq, Structural)]
pub enum ForceStop {
    /// See that the VM has a process.
    RequirePid,
    /// Kill it; no where it is gone already.
    Kill,
    /// Wait for it to be gone.
    WaitKilled,
    /// The VM is stopped.
    Stopped,
    /// It may not be.
    Failed,
}

impl Plan for ForceStop {
    open spec fn next(self, r: Reply) -> Self {
        match self {
            ForceStop::RequirePid => match r {
                Reply::Error => ForceStop::Failed,
                _ => ForceStop::Kill,
            },
            ForceStop::Kill => match r {
                Reply::Yes => ForceStop::WaitKilled,
                Reply::No => ForceStop::Stopped,
                Reply::Error => ForceStop::Failed,
            },
            ForceStop::WaitKilled => ForceStop::Stopped,
            ForceStop::Stopped => ForceStop::Stopped,
            ForceStop::Failed => ForceStop::Failed,
        }
    }

    open spec fn lenient(self) -> bool {
        self == ForceStop::WaitKilled
    }

    open spec fn ended(self) -> bool {
        self == ForceStop::Stopped || self == ForceStop::Failed
    }

    open spec fn doomed(self) -> bool {
        self == ForceStop::Failed
    }

    open spec fn left(self) -> nat {
        match self {
            ForceStop::RequirePid => 3,
            ForceStop::Kill => 2,
            ForceStop::WaitKilled => 1,
            _ => 0,
        }
    }

    fn step(self, r: Reply) -> (p: Self) {
        match self {
            ForceStop::RequirePid => match r {
                Reply::Error => ForceStop::Failed,
                _ => ForceStop::Kill,
            },
            ForceStop::Kill => match r {
                Reply::Yes => ForceStop::WaitKilled,
                Reply::No => ForceStop::Stopped,
                Reply::Error => ForceStop::Failed,
            },
            ForceStop::WaitKilled => ForceStop::Stopped,
            ForceStop::Stopped => ForceStop::Stopped,
            ForceStop::Failed => ForceStop::Failed,
        }
    }

    fn is_lenient(self) -> (b: bool) {
        match self {
            ForceStop::WaitKilled => true,
            _ => false,
        }
    }

    proof fn lemma_ends(self, r: Reply) {
    }
}

/// A VM is killed only after it was asked to shut down and did not. A process that is
/// gone already counts as stopped.
pub proof fn law_stop_is_graceful_first(replies: Seq<Reply>)
    ensures
        ForceStop::Kill.next(Reply::No) == ForceStop::Stopped,
        ({
            let p = Stop::RequirePid;
            let end = plan::reached(p, replies);
            &&& plan::does(p, replies, Stop::Kill)
                ==> plan::gets(p, replies, Stop::Terminate, Reply::Yes)
            &&& plan::does(p, replies, Stop::Kill)
                ==> plan::gets(p, replies, Stop::WaitExit, Reply::No)
                || plan::gets(p, replies, Stop::WaitExit, Reply::Error)
            &&& plan::gets(p, replies, Stop::Terminate, Reply::No) ==> end == Stop::Stopped
        }),
{
    let p = Stop::RequirePid;
    plan::lemma_way_in(
        p,
        replies,
        |x: Stop| x == Stop::WaitExit || x == Stop::Kill || x == Stop::WaitKilled,
        plan::getting(Stop::Terminate, Reply::Yes),
    );
    plan::lemma_way_in(
        p,
        replies,
        |x: Stop| x == Stop::Kill || x == Stop::WaitKilled,
        plan::either(plan::getting(Stop::WaitExit, Reply::No), plan::getting(Stop::WaitExit, Reply::Error)),
    );
    plan::lemma_either(
        p,
        replies,
        plan::getting(Stop::WaitExit, Reply::No),
        plan::getting(Stop::WaitExit, Reply::Error),
    );
    plan::lemma_stays(
        p,
        replies,
        plan::getting(Stop::Terminate, Reply::No),
        |x: Stop| x == Stop::Stopped,
    );
}

} // verus!
