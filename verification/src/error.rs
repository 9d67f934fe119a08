//! The error type of the library, and how its members read.
use crate::text;
use vstd::prelude::*;

verus! {

/// Everything that can go wrong. What the operating system or a parser had to
/// say is held as text.
#[allow(inconsistent_fields)]
#[derive(Debug, PartialEq, Eq)]
pub enum Error {
    /// A command exited with a non-zero status.
    Command { command: String, exit_code: i32, stderr: String },
    /// A command could not be spawned.
    CommandExec { command: String, source: String },
    /// ZFS operation failed.
    Zfs(String),
    /// Firecracker API or process error.
    Firecracker(String),
    /// Networking error (TAP, IP allocation, NAT).
    Network(String),
    /// VM hypervisor lifecycle error.
    Vm(String),
    /// Image pull or unpack error.
    Image(String),
    /// Vsock CID allocation error.
    Vsock(String),
    /// SSH connection or command error.
    Ssh(String),
    /// State store error.
    State(String),
    /// Config parsing or validation error.
    Config(String),
    /// dm-thin pool error.
    Pool(String),
    /// VM not found.
    VmNotFound { name: String },
    /// Image not found locally.
    ImageNotFound { name: String },
    /// VM is in the wrong state for this operation.
    VmWrongState { name: String, actual: String, expected: String },
    /// Root privileges required.
    RootRequired,
    /// File I/O error with path context.
    Io { path: String, source: String },
    /// JSON serialization or deserialization error.
    Json(String),
    /// YAML parsing error.
    Yaml(String),
    /// SQLite error from the embedded allocator state database.
    Sqlite(String),
    /// ember-vz failed to start a VM: the cause, the last lines of its log, and
    /// where a copy of the log was kept.
    EmberVzStartFailed {
        source: Box<Error>,
        stderr_tail: Vec<String>,
        preserved_log_path: Option<String>,
    },
}

/// `  <line>` and a line feed, for each line.
pub open spec fn indented(lines: Seq<Seq<char>>) -> Seq<char>
    decreases lines.len(),
{
    if lines.len() == 0 {
        Seq::empty()
    } else {
        indented(lines.drop_last()) + "  "@ + lines.last() + "\n"@
    }
}

/// What follows the cause in the message of a failed start.
pub open spec fn start_failed_context(
    stderr_tail: Seq<Seq<char>>,
    preserved: Option<Seq<char>>,
) -> Seq<char> {
    (if stderr_tail.len() > 0 {
        "\nember-vz.log (last 10 lines):\n"@ + indented(stderr_tail)
    } else {
        Seq::empty()
    }) + (match preserved {
        Some(p) => "preserved at: "@ + p,
        None => Seq::empty(),
    })
}

/// The contents of an optional string.
pub open spec fn opt_view(s: Option<String>) -> Option<Seq<char>> {
    match s {
        Some(t) => Some(t@),
        None => None,
    }
}

impl Error {
    /// How the error reads.
    pub open spec fn text(self) -> Seq<char>
        decreases self,
    {
        match self {
            Error::Command { command, exit_code, stderr } => command@ + " failed (exit code "@
                + text::dec_int(exit_code as int) + "): "@ + stderr@,
            Error::CommandExec { command, source } => "failed to execute '"@ + command@
                + "' — is it installed and in PATH?"@,
            Error::Zfs(s) => "zfs: "@ + s@,
            Error::Firecracker(s) => "firecracker: "@ + s@,
            Error::Network(s) => "network: "@ + s@,
            Error::Vm(s) => "vm: "@ + s@,
            Error::Image(s) => "image: "@ + s@,
            Error::Vsock(s) => "vsock: "@ + s@,
            Error::Ssh(s) => "ssh: "@ + s@,
            Error::State(s) => "state: "@ + s@,
            Error::Config(s) => "config: "@ + s@,
            Error::Pool(s) => "pool: "@ + s@,
            Error::VmNotFound { name } => "vm '"@ + name@
                + "' not found — run 'ember vm list' to see available VMs"@,
            Error::ImageNotFound { name } => "image '"@ + name@ + "' not found"@,
            Error::VmWrongState { name, actual, expected } => "vm '"@ + name@ + "' is "@ + actual@
                + ", expected "@ + expected@,
            Error::RootRequired => "this operation requires root privileges"@,
            Error::Io { path, source } => path@ + ": "@ + source@,
            Error::Json(s) => "json: "@ + s@,
            Error::Yaml(s) => "yaml: "@ + s@,
            Error::Sqlite(s) => "sqlite: "@ + s@,
            Error::EmberVzStartFailed { source, stderr_tail, preserved_log_path } => source.text()
                + start_failed_context(text::views(stderr_tail@), opt_view(preserved_log_path)),
        }
    }

    /// How the error reads.
    pub fn to_string(&self) -> (r: String)
        ensures
            r@ == self.text(),
        decreases self, 0nat,
    {
        match self {
            Error::Command { command, exit_code, stderr } => {
                let mut s = command.clone();
                s.append(" failed (exit code ");
                s.append(text::dec_i32(*exit_code).as_str());
                s.append("): ");
                s.append(stderr.as_str());
                s
            },
            Error::CommandExec { command, source: _ } => surround(
                "failed to execute '",
                command,
                "' — is it installed and in PATH?",
            ),
            Error::Zfs(s) => prefixed("zfs: ", s),
            Error::Firecracker(s) => prefixed("firecracker: ", s),
            Error::Network(s) => prefixed("network: ", s),
            Error::Vm(s) => prefixed("vm: ", s),
            Error::Image(s) => prefixed("image: ", s),
            Error::Vsock(s) => prefixed("vsock: ", s),
            Error::Ssh(s) => prefixed("ssh: ", s),
            Error::State(s) => prefixed("state: ", s),
            Error::Config(s) => prefixed("config: ", s),
            Error::Pool(s) => prefixed("pool: ", s),
            Error::VmNotFound { name } => surround(
                "vm '",
                name,
                "' not found — run 'ember vm list' to see available VMs",
            ),
            Error::ImageNotFound { name } => surround("image '", name, "' not found"),
            Error::VmWrongState { name, actual, expected } => {
                let mut s = surround("vm '", name, "' is ");
                s.append(actual.as_str());
                s.append(", expected ");
                s.append(expected.as_str());
                s
            },
            Error::RootRequired => "this operation requires root privileges".to_owned(),
            Error::Io { path, source } => surround(path.as_str(), &": ".to_owned(), source.as_str()),
            Error::Json(s) => prefixed("json: ", s),
            Error::Yaml(s) => prefixed("yaml: ", s),
            Error::Sqlite(s) => prefixed("sqlite: ", s),
            Error::EmberVzStartFailed { source, stderr_tail, preserved_log_path } => {
                format_ember_vz_start_failed(source, stderr_tail, preserved_log_path)
            },
        }
    }

    /// The error of a finished command, or its output where it succeeded.
    pub fn check_command(command: &str, output: CommandOutput) -> (r: Result<
        CommandOutput,
        Error,
    >)
        ensures
            match r {
                Ok(o) => output.success() && o == output,
                Err(e) => !output.success() && (e matches Error::Command {
                    command: c,
                    exit_code,
                    stderr,
                } && c@ == command@ && exit_code == output.code_or_minus_one() && stderr@ == text::trim(
                    text::utf8_lossy(output.stderr@),
                )),
            },
    {
        if output.succeeded() {
            return Ok(output);
        }
        let exit_code: i32 = match output.exit_code {
            Some(c) => c,
            None => -1,
        };
        Err(
            Error::Command {
                command: command.to_owned(),
                exit_code,
                stderr: text::trimmed(text::from_utf8_lossy(&output.stderr).as_str()),
            },
        )
    }
}

fn prefixed(p: &str, s: &String) -> (r: String)
    ensures
        r@ == p@ + s@,
{
    let mut t = p.to_owned();
    t.append(s.as_str());
    t
}

fn surround(p: &str, s: &String, q: &str) -> (r: String)
    ensures
        r@ == p@ + s@ + q@,
{
    let mut t = prefixed(p, s);
    t.append(q);
    t
}

/// The message of a failed start: the cause, the last lines of the log, and
/// where the log was kept.
pub fn format_ember_vz_start_failed(
    source: &Error,
    stderr_tail: &Vec<String>,
    preserved_log_path: &Option<String>,
) -> (msg: String)
    ensures
        msg@ == source.text() + start_failed_context(
            text::views(stderr_tail@),
            opt_view(*preserved_log_path),
        ),
    decreases source, 1nat,
{
    let mut msg = source.to_string();
    let mut context = String::new();
    assert(context@ =~= Seq::<char>::empty());
    if stderr_tail.len() > 0 {
        let mut block = String::new();
        let mut i: usize = 0;
        assert(text::views(stderr_tail@).take(0) =~= Seq::<Seq<char>>::empty());
        assert(block@ =~= Seq::<char>::empty());
        while i < stderr_tail.len()
            invariant
                i <= stderr_tail.len(),
                block@ == indented(text::views(stderr_tail@).take(i as int)),
            decreases stderr_tail.len() - i,
        {
            proof {
                let t = text::views(stderr_tail@).take(i + 1);
                assert(t.drop_last() =~= text::views(stderr_tail@).take(i as int));
                assert(t.last() == stderr_tail@[i as int]@);
            }
            block.append("  ");
            block.append(stderr_tail[i].as_str());
            block.append("\n");
            i += 1;
        }
        assert(text::views(stderr_tail@).take(stderr_tail@.len() as int) =~= text::views(stderr_tail@));
        context = prefixed("\nember-vz.log (last 10 lines):\n", &block);
    }
    match preserved_log_path {
        Some(p) => {
            context.append(prefixed("preserved at: ", p).as_str());
        },
        None => {
            assert(context@ + Seq::<char>::empty() =~= context@);
        },
    }
    msg.append(context.as_str());
    msg
}

/// What a finished command left behind.
#[derive(Clone, Debug, PartialEq, Eq)]
pub struct CommandOutput {
    /// Exit code; `None` where a signal ended the command.
    pub exit_code: Option<i32>,
    pub stdout: Vec<u8>,
    pub stderr: Vec<u8>,
}

impl CommandOutput {
    /// A command succeeds by exiting with code zero.
    pub open spec fn success(self) -> bool {
        self.exit_code == Some(0i32)
    }

    pub open spec fn code_or_minus_one(self) -> i32 {
        match self.exit_code {
            Some(c) => c,
            None => -1i32,
        }
    }

    pub fn succeeded(&self) -> (r: bool)
        ensures
            r == self.success(),
    {
        match self.exit_code {
            Some(c) => c == 0,
            None => false,
        }
    }
}

/// Whether `e` is the networking error that says `msg`.
pub open spec fn is_network(e: Error, msg: Seq<char>) -> bool {
    e matches Error::Network(s) && s@ == msg
}

/// Whether `e` is the vsock error that says `msg`.
pub open spec fn is_vsock(e: Error, msg: Seq<char>) -> bool {
    e matches Error::Vsock(s) && s@ == msg
}

/// Whether `e` is the SQLite error that says `msg`.
pub open spec fn is_sqlite(e: Error, msg: Seq<char>) -> bool {
    e matches Error::Sqlite(s) && s@ == msg
}

/// Whether `e` is the VM error that says `msg`.
pub open spec fn is_vm(e: Error, msg: Seq<char>) -> bool {
    e matches Error::Vm(s) && s@ == msg
}

/// Whether `e` is the config error that says `msg`.
pub open spec fn is_config(e: Error, msg: Seq<char>) -> bool {
    e matches Error::Config(s) && s@ == msg
}

/// Whether `e` is the pool error that says `msg`.
pub open spec fn is_pool(e: Error, msg: Seq<char>) -> bool {
    e matches Error::Pool(s) && s@ == msg
}

/// Whether `e` is the ZFS error that says `msg`.
pub open spec fn is_zfs(e: Error, msg: Seq<char>) -> bool {
    e matches Error::Zfs(s) && s@ == msg
}

proof fn lemma_part(a: Seq<char>, m: Seq<char>, b: Seq<char>)
    ensures
        text::contains_text(a + m + b, m),
        text::contains_text(a + m, m),
{
    let i = a.len() as int;
    assert((a + m + b).subrange(i, i + m.len()) =~= m);
    assert(text::occurs_at(a + m + b, m, i));
    assert((a + m).subrange(i, i + m.len()) =~= m);
    assert(text::occurs_at(a + m, m, i));
}

/// Only a command that exits with code zero has succeeded; one that a signal ended
/// has not, and neither has one that was never started.
pub proof fn law_only_zero_is_success(out: CommandOutput, code: i32)
    ensures
        out.exit_code is None ==> !out.success() && out.code_or_minus_one() == -1,
        out.exit_code == Some(code) ==> (out.success() <==> code == 0) && out.code_or_minus_one()
            == code,
{
}

/// The message of a failed command tells which one it was, its exit code and what
/// it said.
pub proof fn law_failed_command_is_told(command: String, exit_code: i32, stderr: String)
    ensures
        ({
            let s = (Error::Command { command, exit_code, stderr }).text();
            &&& command@.is_prefix_of(s)
            &&& text::contains_text(s, "exit code "@ + text::dec_int(exit_code as int))
            &&& stderr@.is_suffix_of(s)
        }),
{
    let s = (Error::Command { command, exit_code, stderr }).text();
    assert(s.take(command@.len() as int) =~= command@);
    assert(s.skip(s.len() - stderr@.len()) =~= stderr@);
    reveal_strlit(" failed (exit code ");
    reveal_strlit("exit code ");
    let m = "exit code "@ + text::dec_int(exit_code as int);
    let i = command@.len() as int + 9;
    assert(s.subrange(i, i + m.len()) =~= m);
    assert(text::occurs_at(s, m, i));
}

/// The message of an error tells what it is about: the name that was not found, the
/// file and what is wrong with it.
pub proof fn law_errors_tell_what_they_are_about(name: String, other: String)
    ensures
        text::contains_text((Error::VmNotFound { name }).text(), name@),
        text::contains_text((Error::ImageNotFound { name }).text(), name@),
        name@.is_prefix_of((Error::Io { path: name, source: other }).text()),
        other@.is_suffix_of((Error::Io { path: name, source: other }).text()),
{
    lemma_part("vm '"@, name@, "' not found — run 'ember vm list' to see available VMs"@);
    lemma_part("image '"@, name@, "' not found"@);
    let io = (Error::Io { path: name, source: other }).text();
    assert(io.take(name@.len() as int) =~= name@);
    assert(io.skip(io.len() - other@.len()) =~= other@);
}

/// The message of a VM that is in another state than it should be tells both.
pub proof fn law_states_at_odds_are_told(name: String, actual: String, expected: String)
    ensures
        ({
            let s = (Error::VmWrongState { name, actual, expected }).text();
            &&& text::contains_text(s, name@)
            &&& text::contains_text(s, "' is "@ + actual@)
            &&& (", expected "@ + expected@).is_suffix_of(s)
        }),
{
    let s = (Error::VmWrongState { name, actual, expected }).text();
    let a = "vm '"@ + name@;
    let b = "' is "@ + actual@;
    let c = ", expected "@ + expected@;
    assert(s =~= a + b + c);
    lemma_part(a, b, c);
    lemma_part("vm '"@, name@, b + c);
    assert("vm '"@ + name@ + (b + c) =~= s);
    assert(s.skip(s.len() - c.len()) =~= c);
}

/// An error of one part of the system says what that part said.
pub proof fn law_errors_pass_on_what_was_said(s: String)
    ensures
        s@.is_suffix_of(Error::Network(s).text()),
        s@.is_suffix_of(Error::Image(s).text()),
        s@.is_suffix_of(Error::Pool(s).text()),
        s@.is_suffix_of(Error::Zfs(s).text()),
        s@.is_suffix_of(Error::Vsock(s).text()),
        s@.is_suffix_of(Error::Config(s).text()),
{
    lemma_tail("network: "@, s@);
    lemma_tail("image: "@, s@);
    lemma_tail("pool: "@, s@);
    lemma_tail("zfs: "@, s@);
    lemma_tail("vsock: "@, s@);
    lemma_tail("config: "@, s@);
}

proof fn lemma_tail(a: Seq<char>, b: Seq<char>)
    ensures
        b.is_suffix_of(a + b),
{
    assert((a + b).skip(a.len() as int) =~= b);
}

/// The message of a failed start begins with its cause, shows each line of the tail
/// of the log, and ends with where the log was kept.
pub proof fn law_failed_start_is_told(tail: Seq<Seq<char>>, preserved: Option<Seq<char>>, k: int)
    requires
        0 <= k < tail.len(),
    ensures
        text::contains_text(start_failed_context(tail, preserved), tail[k]),
        preserved matches Some(p) ==> p.is_suffix_of(start_failed_context(tail, preserved)),
        start_failed_context(Seq::empty(), None).len() == 0,
{
    lemma_indented(tail, k);
    let s = indented(tail);
    let i = choose|i: int| text::occurs_at(s, tail[k], i);
    let head = "\nember-vz.log (last 10 lines):\n"@;
    let all = start_failed_context(tail, preserved);
    let n = tail[k].len();
    assert(all.subrange(head.len() + i, head.len() + i + n) =~= s.subrange(i, i + n));
    assert(text::occurs_at(all, tail[k], head.len() + i));
    if preserved is Some {
        let p = preserved->0;
        assert(all.skip(all.len() - p.len()) =~= p);
    }
}

proof fn lemma_indented(tail: Seq<Seq<char>>, k: int)
    requires
        0 <= k < tail.len(),
    ensures
        text::contains_text(indented(tail), tail[k]),
    decreases tail.len(),
{
    let d = tail.drop_last();
    let s = indented(tail);
    if k == tail.len() - 1 {
        lemma_part(indented(d) + "  "@, tail.last(), "\n"@);
    } else {
        lemma_indented(d, k);
        assert(d[k] == tail[k]);
        let i = choose|i: int| text::occurs_at(indented(d), d[k], i);
        let n = tail[k].len();
        assert(s.subrange(i, i + n) =~= indented(d).subrange(i, i + n));
        assert(text::occurs_at(s, tail[k], i));
    }
}

} // verus!
