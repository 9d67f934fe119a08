//! What listings of snapshots say, and what volumes are called.
use crate::config::GlobalConfig;
use crate::text;
use crate::text_laws;
use crate::zfs;
use crate::zfs::snapshot;
use crate::zfs::snapshot::Info;
use crate::zfs::storage;
use vstd::prelude::*;

verus! {

/// The line of a listing for a snapshot: its name, what it alone uses, what it refers
/// to and when it was taken, between tabs.
pub open spec fn listed(name: Seq<char>, used: u64, referenced: u64, creation: u64) -> Seq<char> {
    text_laws::strung(
        seq![
            name,
            text::dec(used as nat),
            text::dec(referenced as nat),
            text::dec(creation as nat),
        ],
        '\t',
    )
}

proof fn lemma_number(n: u64, field: Seq<char>)
    ensures
        zfs::number_in(text::dec(n as nat), field) == Ok::<u64, Seq<char>>(n),
{
    let s = text::dec(n as nat);
    text_laws::lemma_numbers_are_digits(n as nat, ' ');
    assert(!text::is_white(s[0]) && !text::is_white(s[s.len() - 1]));
    assert(text::trim_start(s) == s);
    assert(text::trim_end(s) == s);
    text::lemma_parse_of_dec(n as nat, u64::MAX as nat);
}

/// A line of a listing is read as what it lists: no number is taken for another one.
pub proof fn law_listed_snapshot_reads_back(
    name: Seq<char>,
    used: u64,
    referenced: u64,
    creation: u64,
)
    requires
        name.len() > 0,
        text_laws::solid(name),
    ensures
        snapshot::line_info(listed(name, used, referenced, creation)) == Some(
            Ok::<Info, Seq<char>>(
                Info { name, short_name: snapshot::short(name), used, referenced, creation },
            ),
        ),
{
    let line = listed(name, used, referenced, creation);
    let a = text::dec(used as nat);
    let b = text::dec(referenced as nat);
    let c = text::dec(creation as nat);
    let p1 = seq![name];
    let p2 = p1.push(a);
    let p3 = p2.push(b);
    let p4 = p3.push(c);
    assert(p4 =~= seq![name, a, b, c]);
    text_laws::lemma_strung_push(p1, a, '\t');
    text_laws::lemma_strung_push(p2, b, '\t');
    text_laws::lemma_strung_push(p3, c, '\t');
    text_laws::lemma_numbers_are_digits(used as nat, '\t');
    text_laws::lemma_numbers_are_digits(referenced as nat, '\t');
    text_laws::lemma_numbers_are_digits(creation as nat, '\t');
    assert(text_laws::free_of(name, '\t')) by {
        assert forall|i: int| 0 <= i < name.len() implies #[trigger] name[i] != '\t' by {
            assert(!text::is_white(name[i]));
        }
    }
    assert forall|k: int| 0 <= k < p4.len() implies text_laws::free_of(#[trigger] p4[k], '\t') by {
        assert(k == 0 || k == 1 || k == 2 || k == 3);
    }
    text_laws::law_split_undoes_string(p4, '\t');
    assert(line[0] == name[0]);
    assert(line[line.len() - 1] == c[c.len() - 1]);
    assert(!text::is_white(name[0]) && !text::is_white(c[c.len() - 1]));
    assert(text::trim_start(line) == line);
    assert(text::trim_end(line) == line);
    lemma_number(used, "used"@);
    lemma_number(referenced, "referenced"@);
    lemma_number(creation, "creation"@);
}

/// A listing of which every line is read lists what its lines do, in their order.
pub proof fn law_listing_reads_back(lines: Seq<Seq<char>>, infos: Seq<Info>)
    requires
        lines.len() == infos.len(),
        forall|k: int|
            0 <= k < lines.len() ==> snapshot::line_info(#[trigger] lines[k]) == Some(
                Ok::<Info, Seq<char>>(infos[k]),
            ),
    ensures
        snapshot::parsed(lines) == Ok::<Seq<Info>, Seq<char>>(infos),
    decreases lines.len(),
{
    if lines.len() > 0 {
        let d = lines.drop_last();
        let i = infos.drop_last();
        assert forall|k: int| 0 <= k < d.len() implies snapshot::line_info(#[trigger] d[k]) == Some(
            Ok::<Info, Seq<char>>(i[k]),
        ) by {
            assert(d[k] == lines[k]);
        }
        law_listing_reads_back(d, i);
        assert(snapshot::line_info(lines[lines.len() - 1]) == Some(
            Ok::<Info, Seq<char>>(infos[infos.len() - 1]),
        ));
        assert(i.push(infos.last()) =~= infos);
    } else {
        assert(infos =~= Seq::<Info>::empty());
    }
}

/// The VMs that depend on a volume are exactly those that a fork snapshot of it is
/// named after.
pub proof fn law_dependents_are_forks(v: Seq<Seq<char>>, vm: Seq<char>)
    ensures
        storage::forks(v).contains(vm) <==> exists|k: int|
            0 <= k < v.len() && #[trigger] v[k] == "fork-"@ + vm,
    decreases v.len(),
{
    if exists|k: int| 0 <= k < v.len() && #[trigger] v[k] == "fork-"@ + vm {
        let k = choose|k: int| 0 <= k < v.len() && #[trigger] v[k] == "fork-"@ + vm;
        storage::law_forks_are_dependents(v, k, vm);
    }
    if v.len() > 0 {
        let d = v.drop_last();
        let b = storage::forks(d);
        let w = storage::forks(v);
        law_dependents_are_forks(d, vm);
        if w.contains(vm) {
            let i = choose|i: int| 0 <= i < w.len() && w[i] == vm;
            if i < b.len() {
                assert(b[i] == vm);
                let k = choose|k: int| 0 <= k < d.len() && #[trigger] d[k] == "fork-"@ + vm;
                assert(v[k] == d[k]);
            } else {
                let last = v[v.len() - 1];
                assert(last =~= "fork-"@ + last.skip("fork-"@.len() as int)) by {
                    assert("fork-"@ == last.subrange(0, "fork-"@.len() as int));
                }
            }
        }
    } else {
        assert(!storage::forks(v).contains(vm));
    }
}

/// The volume of an image is never that of a VM, and the volumes of one installation
/// all lie below its dataset.
pub proof fn law_volumes_are_apart(config: GlobalConfig, image: Seq<char>, vm: Seq<char>)
    ensures
        config.images_text() + "/"@ + image != config.vms_text() + "/"@ + vm,
        (config.pool@ + "/"@ + config.dataset@ + "/"@).is_prefix_of(config.images_text()),
        (config.pool@ + "/"@ + config.dataset@ + "/"@).is_prefix_of(config.vms_text()),
        config.images_text() == config.pool@ + "/"@ + config.dataset@ + "/"@ + "images"@,
        config.vms_text() == config.pool@ + "/"@ + config.dataset@ + "/"@ + "vms"@,
{
    reveal_strlit("/");
    reveal_strlit("/images");
    reveal_strlit("/vms");
    reveal_strlit("images");
    reveal_strlit("vms");
    let base = config.pool@ + "/"@ + config.dataset@;
    let n = base.len() as int;
    let i = config.images_text() + "/"@ + image;
    let v = config.vms_text() + "/"@ + vm;
    assert(i[n + 1] == 'i' && v[n + 1] == 'v');
    assert(config.images_text() =~= base + "/"@ + "images"@);
    assert(config.vms_text() =~= base + "/"@ + "vms"@);
    assert(base + "/"@ =~= config.images_text().subrange(0, n + 1));
    assert(base + "/"@ =~= config.vms_text().subrange(0, n + 1));
}

/// The snapshot that disks are cloned from is the one called `base` of the image.
pub proof fn law_base_snapshot_is_called_base(zvol: Seq<char>)
    ensures
        zvol + "@base"@ == snapshot::snapshot_text(zvol, "base"@),
        snapshot::short(zvol + "@base"@) == zfs::BASE_SNAPSHOT_NAME@,
{
    reveal_strlit("@base");
    reveal_strlit("@");
    reveal_strlit("base");
    assert(zvol + "@base"@ =~= zvol + "@"@ + "base"@);
    snapshot::law_short_name(zvol, "base"@);
}

/// A message says that a dataset is missing exactly in the line that names it: one
/// about another dataset does not.
pub proof fn law_missing_names_the_dataset(a: Seq<char>, b: Seq<char>)
    requires
        zfs::missing_line(a) == zfs::missing_line(b),
    ensures
        a == b,
{
    reveal_strlit("cannot open '");
    reveal_strlit("': dataset does not exist");
    let x = zfs::missing_line(a);
    let y = zfs::missing_line(b);
    assert(x.subrange(13, x.len() - 25) =~= a);
    assert(y.subrange(13, y.len() - 25) =~= b);
}

} // verus!
