//! What volumes and pools are like when work on them is done.
use crate::dm_thin::storage::{CloneVolume, Grow};
use crate::plan;
use crate::plan::{Plan, Reply};
use vstd::prelude::*;

verus! {

/// How much of the data of a pool there is, in bytes.
pub struct Sizes {
    /// The length of the file.
    pub file: nat,
    /// What the loop device on it shows.
    pub shown: nat,
    /// What was measured of the device.
    pub measured: nat,
    /// What the table says that was handed to the kernel.
    pub loaded: nat,
    /// What the pool has.
    pub live: nat,
}

/// What a phase of growing a pool to `size` makes of the sizes, where it works.
pub open spec fn grown_by(w: Sizes, p: Grow, r: Reply, size: nat) -> Sizes {
    if r == Reply::Error {
        w
    } else {
        match p {
            Grow::Extend => Sizes { file: size, ..w },
            Grow::Refresh => Sizes { shown: w.file, ..w },
            Grow::MeasureData => Sizes { measured: w.shown, ..w },
            Grow::Load => Sizes { loaded: w.measured, ..w },
            Grow::Resume => Sizes { live: w.loaded, ..w },
            _ => w,
        }
    }
}

/// The sizes after a run.
pub open spec fn sizes_after(p: Grow, replies: Seq<Reply>, w: Sizes, size: nat) -> Sizes
    decreases replies.len(),
{
    if replies.len() == 0 || p.ended() {
        w
    } else {
        sizes_after(p.next(replies[0]), replies.skip(1), grown_by(w, p, replies[0], size), size)
    }
}

/// What the sizes are before a phase.
spec fn on_the_way(p: Grow, w: Sizes, size: nat) -> bool {
    let live = p == Grow::Done;
    let loaded = live || p == Grow::CheckLoad || p == Grow::Resume;
    let measured = loaded || p == Grow::Suspend || p == Grow::Load;
    let shown = measured || p == Grow::MeasureData;
    let file = shown || p == Grow::FindMetadata || p == Grow::FindData || p == Grow::Refresh;
    &&& file ==> w.file == size
    &&& shown ==> w.shown == size
    &&& measured ==> w.measured == size
    &&& loaded ==> w.loaded == size
    &&& live ==> w.live == size
}

proof fn lemma_growing(p: Grow, replies: Seq<Reply>, w: Sizes, size: nat)
    requires
        on_the_way(p, w, size),
    ensures
        on_the_way(plan::reached(p, replies), sizes_after(p, replies, w, size), size),
    decreases replies.len(),
{
    if replies.len() > 0 && !p.ended() {
        lemma_growing(
            p.next(replies[0]),
            replies.skip(1),
            grown_by(w, p, replies[0], size),
            size,
        );
    }
}

/// A pool that has grown has the size that was asked for, and so has the file of its
/// data, whatever both had before.
pub proof fn law_grown_pool_has_the_size(replies: Seq<Reply>, w: Sizes, size: nat)
    requires
        plan::reached(Grow::EnsurePool, replies) == Grow::Done,
    ensures
        sizes_after(Grow::EnsurePool, replies, w, size).file == size,
        sizes_after(Grow::EnsurePool, replies, w, size).live == size,
{
    lemma_growing(Grow::EnsurePool, replies, w, size);
}

/// The disk of a VM that is being cloned.
pub struct Disk {
    /// What the volume that was made is a snapshot of.
    pub snapshot_of: Option<u64>,
    /// What the active device shows.
    pub shows: Option<u64>,
}

/// What a phase of cloning the volume `source` makes of a disk, where it works.
pub open spec fn cloned_by(d: Disk, p: CloneVolume, r: Reply, source: u64) -> Disk {
    if r == Reply::Error {
        d
    } else {
        match p {
            CloneVolume::Snapshot => Disk { snapshot_of: Some(source), ..d },
            CloneVolume::Activate => Disk { shows: d.snapshot_of, ..d },
            CloneVolume::Delete => Disk { snapshot_of: None, ..d },
            _ => d,
        }
    }
}

/// The disk after a run.
pub open spec fn disk_after(p: CloneVolume, replies: Seq<Reply>, d: Disk, source: u64) -> Disk
    decreases replies.len(),
{
    if replies.len() == 0 || p.ended() {
        d
    } else {
        disk_after(p.next(replies[0]), replies.skip(1), cloned_by(d, p, replies[0], source), source)
    }
}

spec fn being_cloned(p: CloneVolume, d: Disk, source: u64) -> bool {
    &&& p == CloneVolume::Activate ==> d.snapshot_of == Some(source)
    &&& p == CloneVolume::Done ==> d.snapshot_of == Some(source) && d.shows == Some(source)
    &&& p != CloneVolume::Done ==> d.shows is None
}

proof fn lemma_cloning(p: CloneVolume, replies: Seq<Reply>, d: Disk, source: u64)
    requires
        being_cloned(p, d, source),
    ensures
        being_cloned(plan::reached(p, replies), disk_after(p, replies, d, source), source),
    decreases replies.len(),
{
    if replies.len() > 0 && !p.ended() {
        lemma_cloning(
            p.next(replies[0]),
            replies.skip(1),
            cloned_by(d, p, replies[0], source),
            source,
        );
    }
}

/// A VM whose disk was cloned has an active device that is a snapshot of the volume of
/// the image; one whose disk was not has none.
pub proof fn law_cloned_disk_is_the_image(replies: Seq<Reply>, source: u64)
    ensures
        ({
            let none = Disk { snapshot_of: None, shows: None };
            let end = plan::reached(CloneVolume::EnsurePool, replies);
            let disk = disk_after(CloneVolume::EnsurePool, replies, none, source);
            &&& end == CloneVolume::Done ==> disk.shows == Some(source)
            &&& end == CloneVolume::Failed ==> disk.shows is None
        }),
{
    lemma_cloning(
        CloneVolume::EnsurePool,
        replies,
        Disk { snapshot_of: None, shows: None },
        source,
    );
}

} // verus!
