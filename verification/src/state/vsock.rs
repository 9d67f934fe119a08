//! Vsock CID allocation for VMs.
//!
//! Each VM with vsock enabled needs a guest CID of its own. CIDs 0 to 2 are
//! reserved, so allocations start at 3; the lowest free one is handed out.
use crate::error;
use crate::error::Error;
use crate::text;
use std::collections::HashSet;
use vstd::prelude::*;

verus! {

broadcast use {vstd::std_specs::hash::group_hash_axioms, vstd::set::group_set_axioms};

/// First allocatable guest CID.
pub const MIN_CID: u32 = 3;

/// Maximum guest CID; the one above it is reserved.
pub const MAX_CID: u32 = 0xFFFF_FFFE;

/// One recorded CID.
#[derive(Debug, PartialEq)]
pub struct VsockRow {
    pub cid: u32,
    pub vm_name: String,
}

/// What a [`VsockRow`] says.
pub struct Holder {
    pub cid: u32,
    pub vm_name: Seq<char>,
}

impl View for VsockRow {
    type V = Holder;

    open spec fn view(&self) -> Holder {
        Holder { cid: self.cid, vm_name: self.vm_name@ }
    }
}

/// The recorded CIDs, oldest first.
#[derive(Debug, PartialEq)]
pub struct VsockTable {
    pub rows: Vec<VsockRow>,
}

impl View for VsockTable {
    type V = Seq<Holder>;

    open spec fn view(&self) -> Seq<Holder> {
        Seq::new(self.rows@.len(), |i: int| self.rows@[i]@)
    }
}

/// The keys of the table: no CID and no VM name occurs twice.
pub open spec fn unique(t: Seq<Holder>) -> bool {
    forall|i: int, j: int|
        0 <= i < j < t.len() ==> (#[trigger] t[i]).cid != (#[trigger] t[j]).cid && t[i].vm_name
            != t[j].vm_name
}

pub open spec fn has_vm(t: Seq<Holder>, vm_name: Seq<char>) -> bool {
    exists|i: int| 0 <= i < t.len() && (#[trigger] t[i]).vm_name == vm_name
}

pub open spec fn taken(t: Seq<Holder>, cid: u32) -> bool {
    exists|i: int| 0 <= i < t.len() && (#[trigger] t[i]).cid == cid
}

/// The lowest CID that can be handed out.
pub open spec fn lowest_free(t: Seq<Holder>, cid: u32) -> bool {
    &&& MIN_CID <= cid <= MAX_CID
    &&& !taken(t, cid)
    &&& forall|j: u32| MIN_CID <= j < cid ==> #[trigger] taken(t, j)
}

/// Everything that [`allocate`] promises.
pub open spec fn allocated(
    before: Seq<Holder>,
    after: Seq<Holder>,
    vm_name: Seq<char>,
    r: Result<u32, Error>,
) -> bool {
    if forall|j: u32| MIN_CID <= j <= MAX_CID ==> #[trigger] taken(before, j) {
        after == before && r is Err && error::is_vsock(r->Err_0, "no free CIDs available"@)
    } else if has_vm(before, vm_name) {
        after == before && r is Err && error::is_sqlite(
            r->Err_0,
            "UNIQUE constraint failed: vsock_allocations.vm_name"@,
        )
    } else {
        r matches Ok(cid) && lowest_free(before, cid) && after == before.push(
            Holder { cid, vm_name },
        )
    }
}

fn collect(table: &VsockTable) -> (used: HashSet<u32>)
    ensures
        forall|c: u32| used@.contains(c) <==> #[trigger] taken(table@, c),
{
    let mut used: HashSet<u32> = HashSet::new();
    let mut i: usize = 0;
    while i < table.rows.len()
        invariant
            i <= table.rows.len(),
            forall|c: u32| #[trigger]
                used@.contains(c) <==> exists|k: int|
                    0 <= k < i && (#[trigger] table@[k]).cid == c,
        decreases table.rows.len() - i,
    {
        let ghost before = used@;
        let c: u32 = table.rows[i].cid;
        used.insert(c);
        proof {
            assert(table@[i as int].cid == c);
            assert forall|d: u32| #[trigger] used@.contains(d) <==> exists|k: int|
                0 <= k < i + 1 && (#[trigger] table@[k]).cid == d by {
                if used@.contains(d) {
                    if d != c {
                        assert(before.contains(d));
                        let k = choose|k: int| 0 <= k < i && (#[trigger] table@[k]).cid == d;
                        assert(table@[k].cid == d);
                    }
                }
                if exists|k: int| 0 <= k < i + 1 && (#[trigger] table@[k]).cid == d {
                    let k = choose|k: int| 0 <= k < i + 1 && (#[trigger] table@[k]).cid == d;
                    if k < i {
                        assert(before.contains(d));
                    }
                }
            }
        }
        i += 1;
    }
    proof {
        assert forall|c: u32| used@.contains(c) <==> #[trigger] taken(table@, c) by {
            if taken(table@, c) {
                let k = choose|k: int| 0 <= k < table@.len() && (#[trigger] table@[k]).cid == c;
                assert(table@[k].cid == c);
            }
        }
    }
    used
}

/// Allocates the lowest free CID for a VM and records it.
pub fn allocate(table: &mut VsockTable, vm_name: &str) -> (r: Result<u32, Error>)
    ensures
        allocated(old(table)@, final(table)@, vm_name@, r),
{
    let used = collect(table);
    let mut next: u32 = MIN_CID;
    while next <= MAX_CID && used.contains(&next)
        invariant
            MIN_CID <= next <= MAX_CID + 1,
            forall|c: u32| used@.contains(c) <==> #[trigger] taken(table@, c),
            forall|j: u32| MIN_CID <= j < next ==> #[trigger] taken(table@, j),
        decreases MAX_CID + 1 - next,
    {
        next += 1;
    }
    if next > MAX_CID {
        return Err(Error::Vsock("no free CIDs available".to_owned()));
    }
    assert(!taken(table@, next));
    let mut i: usize = 0;
    while i < table.rows.len()
        invariant
            i <= table.rows.len(),
            forall|j: int| 0 <= j < i ==> (#[trigger] table@[j]).vm_name != vm_name@,
            *table == *old(table),
            !taken(table@, next),
            MIN_CID <= next <= MAX_CID,
        decreases table.rows.len() - i,
    {
        assert(table@[i as int] == table.rows@[i as int]@);
        if text::same(table.rows[i].vm_name.as_str(), vm_name) {
            assert(table@[i as int].vm_name == vm_name@);
            return Err(
                Error::Sqlite("UNIQUE constraint failed: vsock_allocations.vm_name".to_owned()),
            );
        }
        i += 1;
    }
    let row = VsockRow { cid: next, vm_name: vm_name.to_owned() };
    table.rows.push(row);
    assert(table@ =~= old(table)@.push(row@));
    Ok(next)
}

/// The rows of all VMs but one.
pub open spec fn without(t: Seq<Holder>, vm_name: Seq<char>) -> Seq<Holder>
    decreases t.len(),
{
    if t.len() == 0 {
        Seq::empty()
    } else if t.last().vm_name == vm_name {
        without(t.drop_last(), vm_name)
    } else {
        without(t.drop_last(), vm_name).push(t.last())
    }
}

/// Releases the CID of a VM. Does nothing where it has none.
pub fn release(table: &mut VsockTable, vm_name: &str)
    ensures
        final(table)@ == without(old(table)@, vm_name@),
{
    let ghost t = table@;
    let mut kept = VsockTable { rows: Vec::new() };
    let mut i: usize = 0;
    assert(t.take(0) =~= Seq::<Holder>::empty());
    assert(kept@ =~= Seq::<Holder>::empty());
    while i < table.rows.len()
        invariant
            i <= table.rows.len(),
            t == table@,
            kept@ == without(t.take(i as int), vm_name@),
        decreases table.rows.len() - i,
    {
        let ghost before = kept@;
        proof {
            assert(t.take(i + 1).drop_last() =~= t.take(i as int));
            assert(t.take(i + 1).last() == table.rows@[i as int]@);
        }
        if !text::same(table.rows[i].vm_name.as_str(), vm_name) {
            let row = VsockRow {
                cid: table.rows[i].cid,
                vm_name: table.rows[i].vm_name.clone(),
            };
            kept.rows.push(row);
            assert(kept@ =~= before.push(row@));
        }
        i += 1;
    }
    assert(t.take(t.len() as int) =~= t);
    table.rows = kept.rows;
    assert(table@ =~= kept@);
}

/// Allocating never gives a CID or a VM a second row.
pub proof fn law_allocation_keeps_unique(
    before: Seq<Holder>,
    after: Seq<Holder>,
    vm_name: Seq<char>,
    r: Result<u32, Error>,
)
    requires
        unique(before),
        allocated(before, after, vm_name, r),
    ensures
        unique(after),
        r is Err ==> after == before,
        r matches Ok(cid) ==> !taken(before, cid) && taken(after, cid),
{
    if r is Ok {
        let n = before.len();
        assert(after[n as int].cid == r->Ok_0);
        assert forall|i: int, j: int| 0 <= i < j < after.len() implies (#[trigger] after[i]).cid != (
        #[trigger] after[j]).cid && after[i].vm_name != after[j].vm_name by {
            assert(after[i] == before[i]);
            if j < n {
                assert(after[j] == before[j]);
            }
        }
    }
}

proof fn lemma_without(t: Seq<Holder>, vm_name: Seq<char>, k: int)
    ensures
        without(t, vm_name).len() <= t.len(),
        forall|i: int|
            0 <= i < without(t, vm_name).len() ==> (#[trigger] without(t, vm_name)[i]).vm_name
                != vm_name,
        forall|i: int| 0 <= i < without(t, vm_name).len() ==> t.contains(
            #[trigger] without(t, vm_name)[i],
        ),
        0 <= k < t.len() && t[k].vm_name != vm_name ==> without(t, vm_name).contains(t[k]),
    decreases t.len(),
{
    if t.len() > 0 {
        let d = t.drop_last();
        let b = without(d, vm_name);
        let w = without(t, vm_name);
        lemma_without(d, vm_name, k);
        assert forall|i: int| 0 <= i < w.len() implies (#[trigger] w[i]).vm_name != vm_name
            && t.contains(w[i]) by {
            if i < b.len() {
                assert(w[i] == b[i]);
                assert(d.contains(b[i]));
                let m = choose|m: int| 0 <= m < d.len() && d[m] == b[i];
                assert(t[m] == w[i]);
            } else {
                assert(t[t.len() - 1] == w[i]);
            }
        }
        if 0 <= k < t.len() && t[k].vm_name != vm_name {
            if k < d.len() {
                assert(d[k] == t[k]);
                let m = choose|m: int| 0 <= m < b.len() && b[m] == t[k];
                assert(w[m] == t[k]);
            } else {
                assert(w[w.len() - 1] == t[k]);
            }
        }
    }
}

/// Releasing never leaves a CID or a VM with two rows.
pub proof fn law_release_keeps_unique(t: Seq<Holder>, vm_name: Seq<char>)
    requires
        unique(t),
    ensures
        unique(without(t, vm_name)),
    decreases t.len(),
{
    if t.len() > 0 {
        let d = t.drop_last();
        let b = without(d, vm_name);
        let w = without(t, vm_name);
        assert(unique(d)) by {
            assert forall|i: int, j: int| 0 <= i < j < d.len() implies (#[trigger] d[i]).cid != (
            #[trigger] d[j]).cid && d[i].vm_name != d[j].vm_name by {
                assert(d[i] == t[i] && d[j] == t[j]);
            }
        }
        law_release_keeps_unique(d, vm_name);
        lemma_without(d, vm_name, 0);
        assert forall|i: int, j: int| 0 <= i < j < w.len() implies (#[trigger] w[i]).cid != (
        #[trigger] w[j]).cid && w[i].vm_name != w[j].vm_name by {
            assert(w[i] == b[i]);
            assert(d.contains(b[i]));
            let m = choose|m: int| 0 <= m < d.len() && d[m] == b[i];
            assert(t[m] == w[i]);
            if j < b.len() {
                assert(w[j] == b[j]);
            } else {
                assert(t[t.len() - 1] == w[j]);
            }
        }
    }
}

/// Releasing removes every row of the VM and no row of another, leaves the CID that
/// only it held free, and keeps the table without duplicates.
pub proof fn law_release(t: Seq<Holder>, vm_name: Seq<char>, k: int)
    requires
        unique(t),
        0 <= k < t.len(),
    ensures
        unique(without(t, vm_name)),
        !has_vm(without(t, vm_name), vm_name),
        t[k].vm_name != vm_name ==> without(t, vm_name).contains(t[k]),
        t[k].vm_name == vm_name ==> !taken(without(t, vm_name), t[k].cid),
{
    law_release_keeps_unique(t, vm_name);
    lemma_without(t, vm_name, k);
    let w = without(t, vm_name);
    if t[k].vm_name == vm_name && taken(w, t[k].cid) {
        let i = choose|i: int| 0 <= i < w.len() && (#[trigger] w[i]).cid == t[k].cid;
        let m = choose|m: int| 0 <= m < t.len() && t[m] == w[i];
        assert(m != k);
        if m < k {
            assert(t[m].cid != t[k].cid);
        } else {
            assert(t[k].cid != t[m].cid);
        }
    }
}

/// Releasing a VM without a row changes nothing, so releasing twice is releasing
/// once.
pub proof fn law_release_idempotent(t: Seq<Holder>, vm_name: Seq<char>)
    ensures
        without(without(t, vm_name), vm_name) == without(t, vm_name),
        !has_vm(t, vm_name) ==> without(t, vm_name) == t,
{
    lemma_without(t, vm_name, 0);
    lemma_without_absent(without(t, vm_name), vm_name);
    if !has_vm(t, vm_name) {
        lemma_without_absent(t, vm_name);
    }
}

proof fn lemma_without_absent(t: Seq<Holder>, vm_name: Seq<char>)
    requires
        forall|i: int| 0 <= i < t.len() ==> (#[trigger] t[i]).vm_name != vm_name,
    ensures
        without(t, vm_name) == t,
    decreases t.len(),
{
    if t.len() > 0 {
        let b = t.drop_last();
        assert forall|i: int| 0 <= i < b.len() implies (#[trigger] b[i]).vm_name != vm_name by {
            assert(b[i] == t[i]);
        }
        lemma_without_absent(b, vm_name);
        assert(t[t.len() - 1].vm_name != vm_name);
        assert(b.push(t.last()) =~= t);
    } else {
        assert(without(t, vm_name) =~= t);
    }
}

/// A CID that was given back is handed out again before any higher one.
pub proof fn law_lowest_free_cid(
    before: Seq<Holder>,
    after: Seq<Holder>,
    vm_name: Seq<char>,
    r: Result<u32, Error>,
    free: u32,
)
    requires
        allocated(before, after, vm_name, r),
        r is Ok,
        free >= MIN_CID,
        !taken(before, free),
    ensures
        r->Ok_0 <= free,
        r->Ok_0 >= MIN_CID,
{
}

/// No VM is given one of the CIDs that are taken for the machine itself and for the
/// host, nor the one that stands for any.
pub proof fn law_reserved_cids_are_kept(
    before: Seq<Holder>,
    after: Seq<Holder>,
    vm_name: Seq<char>,
    r: Result<u32, Error>,
)
    requires
        allocated(before, after, vm_name, r),
        r is Ok,
    ensures
        r->Ok_0 != 0 && r->Ok_0 != 1 && r->Ok_0 != 2,
        r->Ok_0 != u32::MAX,
        after.last() == (Holder { cid: r->Ok_0, vm_name }),
{
}

/// The first VM of all gets the lowest CID that is not taken for the machine itself
/// or the host.
pub proof fn law_first_cid(after: Seq<Holder>, vm_name: Seq<char>, r: Result<u32, Error>)
    requires
        allocated(Seq::empty(), after, vm_name, r),
    ensures
        r == Ok::<u32, Error>(3),
{
    let none = Seq::<Holder>::empty();
    assert(!taken(none, 3));
    assert(!has_vm(none, vm_name));
    if r is Ok {
        let cid = r->Ok_0;
        if cid > 3 {
            assert(taken(none, 3));
        }
    }
}

} // verus!
