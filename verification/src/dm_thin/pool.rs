//! The `thin-pool` target.
use crate::command;
use crate::command::Cmd;
use crate::deeds;
use crate::deeds::Deed;
use crate::dm_thin;
use crate::dm_thin::laws;
use crate::error::Error;
use crate::plan;
use crate::plan::{Plan, Reply};
use crate::text;
use crate::text_laws;
use vstd::prelude::*;

verus! {

/// Default pool block size in sectors (64 KiB).
pub const DEFAULT_BLOCK_SIZE_SECTORS: u32 = 128;

/// Default low water mark in pool blocks.
pub const DEFAULT_LOW_WATER_BLOCKS: u64 = 32_768;

/// Operating mode of a pool.
#[derive(Clone, Copy, Debug, PartialEq, Eq, Structural)]
pub enum PoolMode {
    /// Normal operation.
    ReadWrite,
    /// Read-only after a metadata error or on request.
    ReadOnly,
    /// Out of data blocks.
    OutOfDataSpace,
    /// Unrecoverable.
    Failed,
}

/// What a pool reports of itself. Sizes are in pool blocks.
#[derive(Clone, Copy, Debug, PartialEq, Eq, Structural)]
pub struct PoolStatus {
    pub used_metadata_blocks: u64,
    pub total_metadata_blocks: u64,
    pub used_data_blocks: u64,
    pub total_data_blocks: u64,
    pub mode: PoolMode,
}

/// Name of the pool of an installation.
pub open spec fn pool_text(ns: Option<Seq<char>>) -> Seq<char> {
    match ns {
        None => "ember-pool"@,
        Some(id) => "ember-"@ + id + "-pool"@,
    }
}

/// Name of the pool of an installation: one per namespace, and the old name for
/// installations without one.
pub fn name(instance_id: Option<&str>) -> (r: String)
    ensures
        r@ == pool_text(crate::config::opt_str(instance_id)),
{
    match instance_id {
        None => "ember-pool".to_owned(),
        Some(id) => text::cat3("ember-", id, "-pool"),
    }
}

/// Two installations never share a pool.
pub proof fn law_pool_names_differ(a: Option<Seq<char>>, b: Option<Seq<char>>)
    requires
        a != b,
    ensures
        pool_text(a) != pool_text(b),
{
    reveal_strlit("ember-pool");
    reveal_strlit("ember-");
    reveal_strlit("-pool");
    let x = pool_text(a);
    let y = pool_text(b);
    if x == y {
        match (a, b) {
            (Some(p), Some(q)) => {
                assert(x.subrange(6, x.len() - 5) =~= p);
                assert(y.subrange(6, y.len() - 5) =~= q);
            },
            (None, Some(q)) => {
                assert(y.len() == 11 + q.len());
            },
            (Some(p), None) => {
                assert(x.len() == 11 + p.len());
            },
            (None, None) => {},
        }
    }
}

/// Loads the kernel module of the target. A kernel with the target built in has
/// no such module, so a failure says nothing.
pub fn load_target() -> (r: Cmd)
    ensures
        r@ == command::cmd("modprobe"@, seq!["dm-thin-pool"@], "modprobe"@, "modprobe"@),
        deeds::modprobe(r@) == Some(Deed::Module { module: "dm-thin-pool"@ }),
{
    let r = command::command("modprobe", &["dm-thin-pool"], "modprobe", "modprobe");
    assert(r@.args =~= seq!["dm-thin-pool"@]);
    r
}

/// Lists the targets that the kernel offers.
pub fn list_targets() -> (r: Cmd)
    ensures
        r@ == command::cmd("dmsetup"@, seq!["targets"@], "dmsetup targets"@, "dmsetup targets"@),
        deeds::dmsetup(r@) == Some(Deed::Targets),
{
    proof {
        deeds::lemma_dmsetup();
    }
    let r = command::command("dmsetup", &["targets"], "dmsetup targets", "dmsetup targets");
    assert(r@.args =~= seq!["targets"@]);
    r
}

/// The first words of the lines of a listing.
pub open spec fn first_words(lines: Seq<Seq<char>>) -> Seq<Seq<char>>
    decreases lines.len(),
{
    if lines.len() == 0 {
        Seq::empty()
    } else {
        let before = first_words(lines.drop_last());
        let w = text::words(lines.last());
        if w.len() > 0 {
            before.push(w[0])
        } else {
            before
        }
    }
}

fn collect_first_words(listing: &str) -> (r: Vec<String>)
    ensures
        text::views(r@) == first_words(text::lines(listing@)),
{
    let lines = text::split_lines(listing);
    let mut out: Vec<String> = Vec::new();
    let mut i: usize = 0;
    assert(text::views(lines@).take(0) =~= Seq::<Seq<char>>::empty());
    assert(text::views(out@) =~= Seq::<Seq<char>>::empty());
    while i < lines.len()
        invariant
            i <= lines.len(),
            text::views(out@) == first_words(text::views(lines@).take(i as int)),
        decreases lines.len() - i,
    {
        proof {
            let t = text::views(lines@).take(i + 1);
            assert(t.drop_last() =~= text::views(lines@).take(i as int));
            assert(t.last() == lines@[i as int]@);
        }
        let w = text::split_words(lines[i].as_str());
        assert(text::views(w@).len() == w.len());
        if w.len() > 0 {
            let s = w[0].clone();
            assert(text::views(w@)[0] == s@);
            proof {
                text::lemma_views_push(out@, s);
            }
            out.push(s);
        }
        i += 1;
    }
    assert(text::views(lines@).take(lines@.len() as int) =~= text::views(lines@));
    out
}

/// Whether `e` is the failure of `command` that says `msg`, with exit code zero.
pub open spec fn is_complaint(e: Error, command: Seq<char>, msg: Seq<char>) -> bool {
    e matches Error::Command { command: c, exit_code, stderr } && c@ == command && exit_code == 0
        && stderr@ == msg
}

/// Accepts the listing of [`list_targets`] only where the target is in it.
pub fn ensure_target_loaded(listing: &str) -> (r: Result<(), Error>)
    ensures
        match r {
            Ok(_) => first_words(text::lines(listing@)).contains("thin-pool"@),
            Err(e) => !first_words(text::lines(listing@)).contains("thin-pool"@) && is_complaint(
                e,
                "dmsetup targets"@,
                "kernel does not provide the 'thin-pool' device-mapper target. Install or enable a kernel with CONFIG_DM_THIN_PROVISIONING and load it with 'modprobe dm-thin-pool'."@,
            ),
        },
{
    let words = collect_first_words(listing);
    if text::list_has(&words, "thin-pool") {
        return Ok(());
    }
    Err(
        Error::Command {
            command: "dmsetup targets".to_owned(),
            exit_code: 0,
            stderr: "kernel does not provide the 'thin-pool' device-mapper target. Install or enable a kernel with CONFIG_DM_THIN_PROVISIONING and load it with 'modprobe dm-thin-pool'.".to_owned(),
        },
    )
}

/// Lists the active device-mapper devices.
pub fn list_devices() -> (r: Cmd)
    ensures
        r@ == command::cmd("dmsetup"@, seq!["ls"@], "dmsetup ls"@, "dmsetup ls"@),
        deeds::dmsetup(r@) == Some(Deed::Mapped),
{
    proof {
        deeds::lemma_dmsetup();
    }
    let r = command::command("dmsetup", &["ls"], "dmsetup ls", "dmsetup ls");
    assert(r@.args =~= seq!["ls"@]);
    r
}

/// The members of a list that start with `prefix`.
pub open spec fn prefixed(v: Seq<Seq<char>>, prefix: Seq<char>) -> Seq<Seq<char>>
    decreases v.len(),
{
    if v.len() == 0 {
        Seq::empty()
    } else {
        let before = prefixed(v.drop_last(), prefix);
        if prefix.is_prefix_of(v.last()) {
            before.push(v.last())
        } else {
            before
        }
    }
}

/// The devices in the listing of [`list_devices`] whose name starts with `prefix`.
pub fn list_with_prefix(listing: &str, prefix: &str) -> (r: Vec<String>)
    ensures
        text::views(r@) == prefixed(first_words(text::lines(listing@)), prefix@),
{
    let names = collect_first_words(listing);
    let mut out: Vec<String> = Vec::new();
    let mut i: usize = 0;
    assert(text::views(names@).take(0) =~= Seq::<Seq<char>>::empty());
    assert(text::views(out@) =~= Seq::<Seq<char>>::empty());
    while i < names.len()
        invariant
            i <= names.len(),
            text::views(out@) == prefixed(text::views(names@).take(i as int), prefix@),
        decreases names.len() - i,
    {
        proof {
            let t = text::views(names@).take(i + 1);
            assert(t.drop_last() =~= text::views(names@).take(i as int));
            assert(t.last() == names@[i as int]@);
        }
        if text::starts_with(names[i].as_str(), prefix) {
            let s = names[i].clone();
            proof {
                text::lemma_views_push(out@, s);
            }
            out.push(s);
        }
        i += 1;
    }
    assert(text::views(names@).take(names@.len() as int) =~= text::views(names@));
    out
}

/// The table line of a pool.
pub open spec fn table_text(
    metadata_dev: Seq<char>,
    data_dev: Seq<char>,
    data_sectors: u64,
    block_size_sectors: u32,
    low_water_blocks: u64,
) -> Seq<char> {
    "0 "@ + text::dec(data_sectors as nat) + " thin-pool "@ + metadata_dev + " "@ + data_dev + " "@
        + text::dec(block_size_sectors as nat) + " "@ + text::dec(low_water_blocks as nat)
}

/// The table line of a pool.
pub fn pool_table(
    metadata_dev: &str,
    data_dev: &str,
    data_sectors: u64,
    block_size_sectors: u32,
    low_water_blocks: u64,
) -> (r: String)
    ensures
        r@ == table_text(
            metadata_dev@,
            data_dev@,
            data_sectors,
            block_size_sectors,
            low_water_blocks,
        ),
        text_laws::free_of(metadata_dev@, ' ') && text_laws::free_of(data_dev@, ' ')
            ==> laws::is_pool_table(
            r@,
            metadata_dev@,
            data_dev@,
            data_sectors,
            block_size_sectors,
            low_water_blocks,
        ),
{
    proof {
        if text_laws::free_of(metadata_dev@, ' ') && text_laws::free_of(data_dev@, ' ') {
            laws::law_pool_table_reads_back(
                metadata_dev@,
                data_dev@,
                data_sectors,
                block_size_sectors,
                low_water_blocks,
            );
        }
    }
    let head = text::cat7(
        "0 ",
        text::dec_u64(data_sectors).as_str(),
        " thin-pool ",
        metadata_dev,
        " ",
        data_dev,
        " ",
    );
    text::cat4(
        head.as_str(),
        text::dec_u64(block_size_sectors as u64).as_str(),
        " ",
        text::dec_u64(low_water_blocks).as_str(),
    )
}

/// Activates a pool from its devices. A metadata device that starts with zeros is
/// formatted; any other is taken over.
pub fn create(name: &str, table: &str) -> (r: Cmd)
    ensures
        r@ == command::cmd("dmsetup"@, seq!["create"@, name@, "--table"@, table@], "dmsetup create"@, "dmsetup create thin-pool"@),
        deeds::dmsetup(r@) == Some(Deed::MapDevice { name: name@, table: table@ }),
{
    proof {
        deeds::lemma_dmsetup();
    }
    let r = command::command("dmsetup", &["create", name, "--table", table], "dmsetup create", "dmsetup create thin-pool");
    assert(r@.args =~= seq!["create"@, name@, "--table"@, table@]);
    r
}

/// Takes a pool down. Its devices keep what they hold.
pub fn remove(name: &str) -> (r: Cmd)
    ensures
        r@ == command::cmd("dmsetup"@, seq!["remove"@, name@], "dmsetup remove"@, "dmsetup remove"@),
        deeds::dmsetup(r@) == Some(Deed::UnmapDevice { name: name@ }),
{
    proof {
        deeds::lemma_dmsetup();
    }
    let r = command::command("dmsetup", &["remove", name], "dmsetup remove", "dmsetup remove");
    assert(r@.args =~= seq!["remove"@, name@]);
    r
}

/// Sends a control message to a pool.
pub fn message(name: &str, msg: &str) -> (r: Cmd)
    ensures
        r@ == command::cmd("dmsetup"@, seq!["message"@, name@, "0"@, msg@], "dmsetup message"@, "dmsetup message"@),
        deeds::dmsetup(r@) == Some(Deed::Tell { name: name@, text: msg@ }),
{
    proof {
        deeds::lemma_dmsetup();
    }
    let r = command::command("dmsetup", &["message", name, "0", msg], "dmsetup message", "dmsetup message");
    assert(r@.args =~= seq!["message"@, name@, "0"@, msg@]);
    r
}

/// Loads a new table into a suspended pool.
pub fn load(name: &str, table: &str) -> (r: Cmd)
    ensures
        r@ == command::cmd("dmsetup"@, seq!["load"@, name@, "--table"@, table@], "dmsetup load"@, "dmsetup load thin-pool"@),
        deeds::dmsetup(r@) == Some(Deed::Retable { name: name@, table: table@ }),
{
    proof {
        deeds::lemma_dmsetup();
    }
    let r = command::command("dmsetup", &["load", name, "--table", table], "dmsetup load", "dmsetup load thin-pool");
    assert(r@.args =~= seq!["load"@, name@, "--table"@, table@]);
    r
}

/// Suspends a device-mapper device.
pub fn suspend(name: &str) -> (r: Cmd)
    ensures
        r@ == command::cmd("dmsetup"@, seq!["suspend"@, name@], "dmsetup suspend"@, "dmsetup suspend"@),
        deeds::dmsetup(r@) == Some(Deed::Suspend { name: name@ }),
{
    proof {
        deeds::lemma_dmsetup();
    }
    let r = command::command("dmsetup", &["suspend", name], "dmsetup suspend", "dmsetup suspend");
    assert(r@.args =~= seq!["suspend"@, name@]);
    r
}

/// Resumes a suspended device-mapper device.
pub fn resume(name: &str) -> (r: Cmd)
    ensures
        r@ == command::cmd("dmsetup"@, seq!["resume"@, name@], "dmsetup resume"@, "dmsetup resume"@),
        deeds::dmsetup(r@) == Some(Deed::Resume { name: name@ }),
{
    proof {
        deeds::lemma_dmsetup();
    }
    let r = command::command("dmsetup", &["resume", name], "dmsetup resume", "dmsetup resume");
    assert(r@.args =~= seq!["resume"@, name@]);
    r
}

/// Asks a pool for its status.
pub fn query_status(name: &str) -> (r: Cmd)
    ensures
        r@ == command::cmd("dmsetup"@, seq!["status"@, name@], "dmsetup status"@, "dmsetup status"@),
        deeds::dmsetup(r@) == Some(Deed::Status { name: name@ }),
{
    proof {
        deeds::lemma_dmsetup();
    }
    let r = command::command("dmsetup", &["status", name], "dmsetup status", "dmsetup status");
    assert(r@.args =~= seq!["status"@, name@]);
    r
}

/// Swapping the table of a live device: suspend, load, resume. A device whose new
/// table is refused is resumed all the same; where the command that loads it cannot
/// be run at all, the device stays suspended.
#[derive(Clone, Copy, Debug, PartialEq, Eq, Structural)]
pub enum Reload {
    /// Suspend the device.
    Suspend,
    /// Run the command that loads the new table.
    Load,
    /// See that it was loaded.
    CheckLoad,
    /// Resume the device with the new table.
    Resume,
    /// Resume the device with its old table.
    Recover,
    /// The new table is live.
    Done,
    /// It is not.
    Failed,
}

impl Plan for Reload {
    open spec fn next(self, r: Reply) -> Self {
        match self {
            Reload::Suspend => match r {
                Reply::Error => Reload::Failed,
                _ => Reload::Load,
            },
            Reload::Load => match r {
                Reply::Error => Reload::Failed,
                _ => Reload::CheckLoad,
            },
            Reload::CheckLoad => match r {
                Reply::Error => Reload::Recover,
                _ => Reload::Resume,
            },
            Reload::Resume => match r {
                Reply::Error => Reload::Failed,
                _ => Reload::Done,
            },
            Reload::Recover => Reload::Failed,
            Reload::Done => Reload::Done,
            Reload::Failed => Reload::Failed,
        }
    }

    open spec fn lenient(self) -> bool {
        self == Reload::Recover
    }

    open spec fn ended(self) -> bool {
        self == Reload::Done || self == Reload::Failed
    }

    open spec fn doomed(self) -> bool {
        self == Reload::Recover || self == Reload::Failed
    }

    open spec fn left(self) -> nat {
        match self {
            Reload::Suspend => 4,
            Reload::Load => 3,
            Reload::CheckLoad => 2,
            Reload::Resume => 1,
            Reload::Recover => 1,
            _ => 0,
        }
    }

    fn step(self, r: Reply) -> (p: Self) {
        match self {
            Reload::Suspend => match r {
                Reply::Error => Reload::Failed,
                _ => Reload::Load,
            },
            Reload::Load => match r {
                Reply::Error => Reload::Failed,
                _ => Reload::CheckLoad,
            },
            Reload::CheckLoad => match r {
                Reply::Error => Reload::Recover,
                _ => Reload::Resume,
            },
            Reload::Resume => match r {
                Reply::Error => Reload::Failed,
                _ => Reload::Done,
            },
            Reload::Recover => Reload::Failed,
            Reload::Done => Reload::Done,
            Reload::Failed => Reload::Failed,
        }
    }

    fn is_lenient(self) -> (b: bool) {
        match self {
            Reload::Recover => true,
            _ => false,
        }
    }

    proof fn lemma_ends(self, r: Reply) {
    }
}

/// A device whose new table was handed to the kernel is asked to resume before the
/// work ends, whether the table was taken or not; and the new table is live only once
/// it was taken and the device has resumed.
pub proof fn law_reload_resumes(replies: Seq<Reply>)
    ensures
        ({
            let p = Reload::Suspend;
            let end = plan::reached(p, replies);
            &&& end.ended() && plan::manages(p, replies, Reload::Load)
                ==> plan::does(p, replies, Reload::Resume)
                || plan::does(p, replies, Reload::Recover)
            &&& plan::does(p, replies, Reload::Load) ==> plan::manages(p, replies, Reload::Suspend)
            &&& end == Reload::Done ==> plan::manages(p, replies, Reload::CheckLoad)
            &&& end == Reload::Done ==> plan::manages(p, replies, Reload::Resume)
        }),
{
    let p = Reload::Suspend;
    plan::lemma_way_out(
        p,
        replies,
        plan::managing(Reload::Load),
        |x: Reload| x == Reload::CheckLoad || x == Reload::Resume || x == Reload::Recover,
        plan::either(plan::doing(Reload::Resume), plan::doing(Reload::Recover)),
    );
    plan::lemma_either(p, replies, plan::doing(Reload::Resume), plan::doing(Reload::Recover));
    plan::lemma_way_in(
        p,
        replies,
        |x: Reload| x != Reload::Suspend && x != Reload::Failed,
        plan::managing(Reload::Suspend),
    );
    plan::lemma_way_in(
        p,
        replies,
        |x: Reload| x == Reload::Resume || x == Reload::Done,
        plan::managing(Reload::CheckLoad),
    );
    plan::lemma_way_in(p, replies, |x: Reload| x == Reload::Done, plan::managing(Reload::Resume));
}

/// Path of the activated device.
pub fn device_path(name: &str) -> (r: String)
    ensures
        r@ == "/dev/mapper/"@ + name@,
{
    text::cat2("/dev/mapper/", name)
}

/// Reads `used/total`.
pub open spec fn fraction(s: Seq<char>) -> Result<(u64, u64), Seq<char>> {
    match text::halves(s, '/') {
        None => Err("expected used/total fraction, got: "@ + s),
        Some((used, total)) => match text::parse_uint(used, u64::MAX as nat) {
            Err(e) => Err("invalid "@ + "used"@ + " field "@ + dm_thin::debug_text(used) + ": "@ + e.text()),
            Ok(a) => match text::parse_uint(total, u64::MAX as nat) {
                Err(e) => Err(
                    "invalid "@ + "total"@ + " field "@ + dm_thin::debug_text(total) + ": "@ + e.text(),
                ),
                Ok(b) => Ok((a as u64, b as u64)),
            },
        },
    }
}

fn status_error(msg: String) -> (e: Error)
    ensures
        is_complaint(e, "dmsetup status thin-pool"@, msg@),
{
    Error::Command { command: "dmsetup status thin-pool".to_owned(), exit_code: 0, stderr: msg }
}

/// The error of a part of a fraction that is no number, given how that part is shown.
pub fn invalid_field(which: &str, shown: &str, why: text::IntError) -> (e: Error)
    ensures
        is_complaint(
            e,
            "dmsetup status thin-pool"@,
            "invalid "@ + which@ + " field "@ + shown@ + ": "@ + why.text(),
        ),
{
    status_error(text::cat6("invalid ", which, " field ", shown, ": ", why.message()))
}

/// Reads `used/total`.
pub fn parse_fraction(s: &str) -> (r: Result<(u64, u64), Error>)
    ensures
        match r {
            Ok(v) => fraction(s@) == Ok::<(u64, u64), Seq<char>>(v),
            Err(e) => fraction(s@) is Err && is_complaint(
                e,
                "dmsetup status thin-pool"@,
                fraction(s@)->Err_0,
            ),
        },
{
    match text::split_once(s, '/') {
        None => Err(status_error(text::cat2("expected used/total fraction, got: ", s))),
        Some((used, total)) => match text::parse_uint_str(used.as_str(), u64::MAX) {
            Err(e) => Err(invalid_field("used", dm_thin::debug_str(used.as_str()).as_str(), e)),
            Ok(a) => match text::parse_uint_str(total.as_str(), u64::MAX) {
                Err(e) => Err(
                    invalid_field("total", dm_thin::debug_str(total.as_str()).as_str(), e),
                ),
                Ok(b) => Ok((a, b)),
            },
        },
    }
}

/// The mode that a word stands for.
pub open spec fn mode_named(s: Seq<char>) -> Option<PoolMode> {
    if s == "rw"@ {
        Some(PoolMode::ReadWrite)
    } else if s == "ro"@ {
        Some(PoolMode::ReadOnly)
    } else if s == "out_of_data_space"@ {
        Some(PoolMode::OutOfDataSpace)
    } else if s == "Fail"@ || s == "failed"@ {
        Some(PoolMode::Failed)
    } else {
        None
    }
}

fn parse_mode(s: &str) -> (r: Option<PoolMode>)
    ensures
        r == mode_named(s@),
{
    if text::same(s, "rw") {
        Some(PoolMode::ReadWrite)
    } else if text::same(s, "ro") {
        Some(PoolMode::ReadOnly)
    } else if text::same(s, "out_of_data_space") {
        Some(PoolMode::OutOfDataSpace)
    } else if text::same(s, "Fail") || text::same(s, "failed") {
        Some(PoolMode::Failed)
    } else {
        None
    }
}

/// The status that a line reports: start, length, `thin-pool`, transaction,
/// metadata fraction, data fraction, held root, mode, and more.
pub open spec fn status_of(line: Seq<char>) -> Result<PoolStatus, Seq<char>> {
    let f = text::words(line);
    if f.len() < 8 || f[2] != "thin-pool"@ {
        Err("unexpected status format: "@ + line)
    } else {
        match (fraction(f[4]), fraction(f[5]), mode_named(f[7])) {
            (Err(m), _, _) => Err(m),
            (Ok(_), Err(m), _) => Err(m),
            (Ok(_), Ok(_), None) => Err("unknown pool mode: "@ + f[7]),
            (Ok((um, tm)), Ok((ud, td)), Some(mode)) => Ok(
                PoolStatus {
                    used_metadata_blocks: um,
                    total_metadata_blocks: tm,
                    used_data_blocks: ud,
                    total_data_blocks: td,
                    mode,
                },
            ),
        }
    }
}

/// Reads the answer to [`query_status`].
pub fn parse_status(line: &str) -> (r: Result<PoolStatus, Error>)
    ensures
        match r {
            Ok(s) => status_of(line@) == Ok::<PoolStatus, Seq<char>>(s),
            Err(e) => status_of(line@) is Err && is_complaint(
                e,
                "dmsetup status thin-pool"@,
                status_of(line@)->Err_0,
            ),
        },
        forall|s: PoolStatus, mode: Seq<char>| #[trigger]
            laws::shows_pool(line@, s, mode) && laws::is_mode_word(s.mode, mode) ==> r == Ok::<
                PoolStatus,
                Error,
            >(s),
{
    proof {
        assert forall|s: PoolStatus, mode: Seq<char>| #[trigger]
            laws::shows_pool(line@, s, mode) && laws::is_mode_word(s.mode, mode) implies status_of(
            line@,
        ) == Ok::<PoolStatus, Seq<char>>(s) by {
            laws::law_status_reads_back(line@, s, mode);
        }
    }
    let f = text::split_words(line);
    let ghost v = text::views(f@);
    assert(v.len() == f.len());
    assert(forall|i: int| 0 <= i < v.len() ==> v[i] == f@[i]@);
    if f.len() < 8 || !text::same(f[2].as_str(), "thin-pool") {
        return Err(status_error(text::cat2("unexpected status format: ", line)));
    }
    let (used_metadata_blocks, total_metadata_blocks) = match parse_fraction(f[4].as_str()) {
        Ok(p) => p,
        Err(e) => return Err(e),
    };
    let (used_data_blocks, total_data_blocks) = match parse_fraction(f[5].as_str()) {
        Ok(p) => p,
        Err(e) => return Err(e),
    };
    match parse_mode(f[7].as_str()) {
        None => Err(status_error(text::cat2("unknown pool mode: ", f[7].as_str()))),
        Some(mode) => Ok(
            PoolStatus {
                used_metadata_blocks,
                total_metadata_blocks,
                used_data_blocks,
                total_data_blocks,
                mode,
            },
        ),
    }
}

} // verus!
