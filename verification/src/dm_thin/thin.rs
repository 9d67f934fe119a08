//! Thin volumes.
//!
//! A fresh volume, a snapshot of another one and the clone for a VM are the same
//! thing. Volumes are addressed by a number that is drawn at random; the pool
//! refuses a number that is taken, and another one is drawn.
use crate::command;
use crate::command::Cmd;
use crate::deeds;
use crate::deeds::Deed;
use crate::dm_thin;
use crate::dm_thin::{laws, pool};
use crate::error::Error;
use crate::text;
use crate::text_laws;
use vstd::prelude::*;

verus! {

/// Largest thin id that the kernel accepts.
pub const MAX_DEV_ID: u64 = 0xff_ffff;

/// `rand::random` gives a `u32` drawn from the whole range by the thread's
/// generator. Nothing can be said of which one.
#[verifier::external_body]
fn random_u32() -> u32 {
    rand::random::<u32>()
}

/// The id in the low bits of a random number, unless it is zero.
pub open spec fn id_in(raw: u32) -> Option<u64> {
    if raw % 0x100_0000 == 0 {
        None
    } else {
        Some((raw % 0x100_0000) as u64)
    }
}

/// The id in the low bits of a random number, unless it is zero.
pub fn thin_id_from(raw: u32) -> (r: Option<u64>)
    ensures
        r == id_in(raw),
        r matches Some(id) ==> 0 < id <= MAX_DEV_ID,
{
    let id: u32 = raw % 0x100_0000;
    if id == 0 {
        None
    } else {
        Some(id as u64)
    }
}

/// Draws a thin id, not zero and in the range that the kernel accepts. A draw of
/// zero is repeated; should every draw be zero, the id is one.
pub fn fresh_thin_id() -> (id: u64)
    ensures
        0 < id <= MAX_DEV_ID,
{
    let mut left: u64 = u64::MAX;
    while left > 0
        decreases left,
    {
        if let Some(id) = thin_id_from(random_u32()) {
            return id;
        }
        left -= 1;
    }
    1
}

/// A number drawn for a new volume, and the command that asks the pool for it.
pub struct Allocation {
    pub id: u64,
    pub ask: Cmd,
}

/// What the pool's answer to an [`Allocation`] means.
#[derive(Debug, PartialEq, Eq)]
pub enum Allocated {
    /// The volume exists under this id.
    Yes(u64),
    /// The number is taken; draw another one.
    Collision,
    /// The pool refused for another reason.
    No(Error),
}

/// What the pool's answer means for the number that was drawn: only a collision
/// is tried again.
pub fn after_allocation(id: u64, answer: Result<(), Error>) -> (r: Allocated)
    ensures
        match answer {
            Ok(_) => r == Allocated::Yes(id),
            Err(e) => if dm_thin::says_exists(e) {
                r == Allocated::Collision
            } else {
                r == Allocated::No(e)
            },
        },
{
    match answer {
        Ok(_) => Allocated::Yes(id),
        Err(e) => if dm_thin::is_already_exists(&e) {
            Allocated::Collision
        } else {
            Allocated::No(e)
        },
    }
}

/// The message that creates a volume.
pub open spec fn create_thin_text(id: u64) -> Seq<char> {
    "create_thin "@ + text::dec(id as nat)
}

/// The message that creates a snapshot.
pub open spec fn create_snap_text(id: u64, src_id: u64) -> Seq<char> {
    "create_snap "@ + text::dec(id as nat) + " "@ + text::dec(src_id as nat)
}

/// The command that sends a message to a pool.
pub open spec fn message_view(pool_name: Seq<char>, msg: Seq<char>) -> command::CmdView {
    command::cmd(
        "dmsetup"@,
        seq!["message"@, pool_name, "0"@, msg],
        "dmsetup message"@,
        "dmsetup message"@,
    )
}

/// Draws a number for a fresh volume.
pub fn allocate(pool_name: &str) -> (r: Allocation)
    ensures
        0 < r.id <= MAX_DEV_ID,
        r.ask@ == message_view(pool_name@, create_thin_text(r.id)),
        deeds::dmsetup(r.ask@) matches Some(Deed::Tell { name, text }) && name == pool_name@
            && laws::makes_volume(text, r.id),
{
    let id: u64 = fresh_thin_id();
    let msg = text::cat2("create_thin ", text::dec_u64(id).as_str());
    proof {
        laws::law_volume_gets_its_number(id);
    }
    Allocation { id, ask: pool::message(pool_name, msg.as_str()) }
}

/// Draws a number for a snapshot of `src_id`.
pub fn allocate_snap(pool_name: &str, src_id: u64) -> (r: Allocation)
    ensures
        0 < r.id <= MAX_DEV_ID,
        r.ask@ == message_view(pool_name@, create_snap_text(r.id, src_id)),
        deeds::dmsetup(r.ask@) matches Some(Deed::Tell { name, text }) && name == pool_name@
            && laws::makes_snapshot(text, r.id, src_id),
{
    let id: u64 = fresh_thin_id();
    let msg = text::cat4(
        "create_snap ",
        text::dec_u64(id).as_str(),
        " ",
        text::dec_u64(src_id).as_str(),
    );
    proof {
        laws::law_snapshot_is_of_its_source(id, src_id);
    }
    Allocation { id, ask: pool::message(pool_name, msg.as_str()) }
}

/// Frees the id of a volume and its blocks. The volume must not be active.
pub fn delete(pool_name: &str, thin_id: u64) -> (r: Cmd)
    ensures
        r@ == message_view(pool_name@, "delete "@ + text::dec(thin_id as nat)),
        deeds::dmsetup(r@) == Some(Deed::Tell { name: pool_name@, text: "delete "@ + text::dec(thin_id as nat) }),
{
    proof {
        deeds::lemma_dmsetup();
    }
    let msg = text::cat2("delete ", text::dec_u64(thin_id).as_str());
    pool::message(pool_name, msg.as_str())
}

/// Path of the device of an activated volume.
pub fn device_path(name: &str) -> (r: String)
    ensures
        r@ == "/dev/mapper/"@ + name@,
{
    text::cat2("/dev/mapper/", name)
}

/// Asks whether a volume is active.
pub fn is_active(name: &str) -> (r: Cmd)
    ensures
        r@ == command::cmd(
            "dmsetup"@,
            seq!["info"@, "--noheadings"@, name@],
            "dmsetup info"@,
            "dmsetup info"@,
        ),
        deeds::dmsetup(r@) == Some(Deed::Look { name: name@ }),
{
    proof {
        deeds::lemma_dmsetup();
    }
    dm_thin::dm_device_exists(name)
}

/// The table line of a volume.
pub open spec fn thin_table_text(pool_name: Seq<char>, thin_id: u64, size_sectors: u64) -> Seq<
    char,
> {
    "0 "@ + text::dec(size_sectors as nat) + " thin "@ + ("/dev/mapper/"@ + pool_name) + " "@
        + text::dec(thin_id as nat)
}

/// The table line of a volume.
pub fn thin_table(pool_name: &str, thin_id: u64, size_sectors: u64) -> (r: String)
    ensures
        r@ == thin_table_text(pool_name@, thin_id, size_sectors),
        text_laws::free_of(pool_name@, ' ') ==> laws::is_volume_table(
            r@,
            pool_name@,
            thin_id,
            size_sectors,
        ),
{
    proof {
        if text_laws::free_of(pool_name@, ' ') {
            laws::law_volume_table_reads_back(pool_name@, thin_id, size_sectors);
        }
    }
    text::cat6(
        "0 ",
        text::dec_u64(size_sectors).as_str(),
        " thin ",
        pool::device_path(pool_name).as_str(),
        " ",
        text::dec_u64(thin_id).as_str(),
    )
}

/// Activates a volume as a block device of the given size.
pub fn activate(name: &str, pool_name: &str, thin_id: u64, size_sectors: u64) -> (r: Cmd)
    ensures
        r@ == command::cmd(
            "dmsetup"@,
            seq![
                "create"@,
                name@,
                "--table"@,
                thin_table_text(pool_name@, thin_id, size_sectors),
            ],
            "dmsetup create"@,
            "dmsetup create thin"@,
        ),
        deeds::dmsetup(r@) == Some(Deed::MapDevice { name: name@, table: thin_table_text(pool_name@, thin_id, size_sectors) }),
{
    proof {
        deeds::lemma_dmsetup();
    }
    let table = thin_table(pool_name, thin_id, size_sectors);
    let r = command::command(
        "dmsetup",
        &["create", name, "--table", table.as_str()],
        "dmsetup create",
        "dmsetup create thin",
    );
    assert(r@.args =~= seq![
        "create"@,
        name@,
        "--table"@,
        thin_table_text(pool_name@, thin_id, size_sectors),
    ]);
    r
}

/// Takes the device of a volume down. The volume stays in the pool.
pub fn deactivate(name: &str) -> (r: Cmd)
    ensures
        r@ == command::cmd("dmsetup"@, seq!["remove"@, name@], "dmsetup remove"@, "dmsetup remove"@),
        deeds::dmsetup(r@) == Some(Deed::UnmapDevice { name: name@ }),
{
    proof {
        deeds::lemma_dmsetup();
    }
    let r = command::command("dmsetup", &["remove", name], "dmsetup remove", "dmsetup remove");
    assert(r@.args =~= seq!["remove"@, name@]);
    r
}

/// Suspends a volume.
pub fn suspend(name: &str) -> (r: Cmd)
    ensures
        r@ == command::cmd(
            "dmsetup"@,
            seq!["suspend"@, name@],
            "dmsetup suspend"@,
            "dmsetup suspend"@,
        ),
        deeds::dmsetup(r@) == Some(Deed::Suspend { name: name@ }),
{
    proof {
        deeds::lemma_dmsetup();
    }
    pool::suspend(name)
}

/// Resumes a suspended volume.
pub fn resume(name: &str) -> (r: Cmd)
    ensures
        r@ == command::cmd(
            "dmsetup"@,
            seq!["resume"@, name@],
            "dmsetup resume"@,
            "dmsetup resume"@,
        ),
        deeds::dmsetup(r@) == Some(Deed::Resume { name: name@ }),
{
    proof {
        deeds::lemma_dmsetup();
    }
    pool::resume(name)
}

/// Loads a table with a new size into a suspended volume; the steps around it are
/// those of [`pool::Reload`].
pub fn reload_size(name: &str, pool_name: &str, thin_id: u64, new_size_sectors: u64) -> (r: Cmd)
    ensures
        r@ == command::cmd(
            "dmsetup"@,
            seq![
                "load"@,
                name@,
                "--table"@,
                thin_table_text(pool_name@, thin_id, new_size_sectors),
            ],
            "dmsetup load"@,
            "dmsetup load thin"@,
        ),
        deeds::dmsetup(r@) == Some(Deed::Retable { name: name@, table: thin_table_text(pool_name@, thin_id, new_size_sectors) }),
{
    proof {
        deeds::lemma_dmsetup();
    }
    let table = thin_table(pool_name, thin_id, new_size_sectors);
    let r = command::command(
        "dmsetup",
        &["load", name, "--table", table.as_str()],
        "dmsetup load",
        "dmsetup load thin",
    );
    assert(r@.args =~= seq![
        "load"@,
        name@,
        "--table"@,
        thin_table_text(pool_name@, thin_id, new_size_sectors),
    ]);
    r
}

/// A character that device-mapper names may hold.
pub open spec fn is_dm_char(c: char) -> bool {
    text::is_ascii_alnum(c) || c == '-' || c == '_'
}

/// A name with every other character replaced.
pub open spec fn sanitized(s: Seq<char>) -> Seq<char> {
    Seq::new(
        s.len(),
        |i: int|
            if is_dm_char(s[i]) {
                s[i]
            } else {
                '_'
            },
    )
}

/// A name that device-mapper accepts: other characters become underscores.
pub fn sanitize_dm_name(name: &str) -> (r: String)
    ensures
        r@ == sanitized(name@),
{
    let v = text::to_chars(name);
    let mut out = String::new();
    let mut i: usize = 0;
    while i < v.len()
        invariant
            i <= v.len(),
            out@ =~= sanitized(v@).take(i as int),
        decreases v.len() - i,
    {
        let c = v[i];
        if text::ascii_alnum(c) || c == '-' || c == '_' {
            out.push(c);
        } else {
            out.push('_');
        }
        i += 1;
    }
    assert(sanitized(v@).take(v@.len() as int) =~= sanitized(v@));
    out
}

/// Sanitizing again changes nothing, and every name that comes out is accepted.
pub proof fn law_sanitized_is_safe(s: Seq<char>)
    ensures
        sanitized(sanitized(s)) == sanitized(s),
        forall|i: int| 0 <= i < s.len() ==> is_dm_char(#[trigger] sanitized(s)[i]),
{
    assert(sanitized(sanitized(s)) =~= sanitized(s));
}

/// Name prefix of image base volumes.
pub open spec fn image_prefix_text(ns: Option<Seq<char>>) -> Seq<char> {
    match ns {
        None => "ember-img-"@,
        Some(id) => "ember-"@ + id + "-img-"@,
    }
}

/// Name prefix of image base volumes; the old one for installations without a
/// namespace.
pub fn image_prefix(instance_id: Option<&str>) -> (r: String)
    ensures
        r@ == image_prefix_text(crate::config::opt_str(instance_id)),
{
    match instance_id {
        None => "ember-img-".to_owned(),
        Some(id) => text::cat3("ember-", id, "-img-"),
    }
}

/// Name prefix of VM disks.
pub open spec fn vm_prefix_text(ns: Option<Seq<char>>) -> Seq<char> {
    match ns {
        None => "ember-vm-"@,
        Some(id) => "ember-"@ + id + "-vm-"@,
    }
}

/// Name prefix of VM disks; the old one for installations without a
/// namespace.
pub fn vm_prefix(instance_id: Option<&str>) -> (r: String)
    ensures
        r@ == vm_prefix_text(crate::config::opt_str(instance_id)),
{
    match instance_id {
        None => "ember-vm-".to_owned(),
        Some(id) => text::cat3("ember-", id, "-vm-"),
    }
}

/// Device name of a VM volume.
pub fn vm_dm_name(vm_prefix: &str, vm_name: &str) -> (r: String)
    ensures
        r@ == vm_prefix@ + sanitized(vm_name@),
{
    text::cat2(vm_prefix, sanitize_dm_name(vm_name).as_str())
}

/// Device name of an image base volume.
pub fn image_dm_name(image_prefix: &str, image_name: &str) -> (r: String)
    ensures
        r@ == image_prefix@ + sanitized(image_name@),
{
    text::cat2(image_prefix, sanitize_dm_name(image_name).as_str())
}

/// Device name of the volume that an image is written to before it becomes the base.
pub fn image_staging_dm_name(image_prefix: &str, image_name: &str) -> (r: String)
    ensures
        r@ == image_prefix@ + sanitized(image_name@) + "-staging"@,
{
    text::cat3(image_prefix, sanitize_dm_name(image_name).as_str(), "-staging")
}

} // verus!
