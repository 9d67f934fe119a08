//! What the texts that go to the kernel and come back from it say.
use crate::config::{DmThinMode, GlobalConfig};
use crate::dm_thin::{loop_device, pool, storage, thin};
use crate::paths;
use crate::text;
use crate::text_laws;
use vstd::prelude::*;

verus! {

/// Whether a table line is that of a volume: it covers the sectors from the first one
/// on, and is the volume of that number in the pool of that name.
pub open spec fn is_volume_table(
    line: Seq<char>,
    pool_name: Seq<char>,
    thin_id: u64,
    sectors: u64,
) -> bool {
    let f = text::split_char(line, ' ');
    &&& f.len() == 5
    &&& text::parse_uint(f[0], u64::MAX as nat) == Ok::<nat, text::IntError>(0)
    &&& text::parse_uint(f[1], u64::MAX as nat) == Ok::<nat, text::IntError>(sectors as nat)
    &&& f[2] == "thin"@
    &&& f[3] == "/dev/mapper/"@ + pool_name
    &&& text::parse_uint(f[4], u64::MAX as nat) == Ok::<nat, text::IntError>(thin_id as nat)
}

/// A kernel that reads the table of a volume finds the pool, the number and the size
/// that it was made for.
pub proof fn law_volume_table_reads_back(pool_name: Seq<char>, thin_id: u64, sectors: u64)
    requires
        text_laws::free_of(pool_name, ' '),
    ensures
        is_volume_table(
            thin::thin_table_text(pool_name, thin_id, sectors),
            pool_name,
            thin_id,
            sectors,
        ),
{
    let line = thin::thin_table_text(pool_name, thin_id, sectors);
    reveal_strlit("0 ");
    reveal_strlit(" thin ");
    reveal_strlit("thin");
    reveal_strlit("/dev/mapper/");
    reveal_strlit(" ");
    let n = text::dec(sectors as nat);
    let i = text::dec(thin_id as nat);
    let dev = "/dev/mapper/"@ + pool_name;
    let zero = text::dec(0);
    let p1 = seq![zero];
    let p2 = p1.push(n);
    let p3 = p2.push("thin"@);
    let p4 = p3.push(dev);
    let p5 = p4.push(i);
    text_laws::lemma_strung_push(p1, n, ' ');
    text_laws::lemma_strung_push(p2, "thin"@, ' ');
    text_laws::lemma_strung_push(p3, dev, ' ');
    text_laws::lemma_strung_push(p4, i, ' ');
    assert(zero =~= seq!['0']);
    assert(line =~= text_laws::strung(p5, ' '));
    text_laws::lemma_numbers_are_digits(0, ' ');
    text_laws::lemma_numbers_are_digits(sectors as nat, ' ');
    text_laws::lemma_numbers_are_digits(thin_id as nat, ' ');
    assert(text_laws::free_of(dev, ' ')) by {
        assert forall|k: int| 0 <= k < dev.len() implies #[trigger] dev[k] != ' ' by {
            if k >= 12 {
                assert(dev[k] == pool_name[k - 12]);
            }
        }
    }
    assert forall|k: int| 0 <= k < p5.len() implies text_laws::free_of(#[trigger] p5[k], ' ') by {
        assert(k == 0 || k == 1 || k == 2 || k == 3 || k == 4);
    }
    text_laws::law_split_undoes_string(p5, ' ');
    text::lemma_parse_of_dec(0, u64::MAX as nat);
    text::lemma_parse_of_dec(sectors as nat, u64::MAX as nat);
    text::lemma_parse_of_dec(thin_id as nat, u64::MAX as nat);
}

/// Whether a table line is that of a pool on two devices.
pub open spec fn is_pool_table(
    line: Seq<char>,
    metadata_dev: Seq<char>,
    data_dev: Seq<char>,
    data_sectors: u64,
    block_sectors: u32,
    low_water_blocks: u64,
) -> bool {
    let f = text::split_char(line, ' ');
    &&& f.len() == 7
    &&& text::parse_uint(f[0], u64::MAX as nat) == Ok::<nat, text::IntError>(0)
    &&& text::parse_uint(f[1], u64::MAX as nat) == Ok::<nat, text::IntError>(data_sectors as nat)
    &&& f[2] == "thin-pool"@
    &&& f[3] == metadata_dev
    &&& f[4] == data_dev
    &&& text::parse_uint(f[5], u64::MAX as nat) == Ok::<nat, text::IntError>(block_sectors as nat)
    &&& text::parse_uint(f[6], u64::MAX as nat) == Ok::<nat, text::IntError>(
        low_water_blocks as nat,
    )
}

/// A kernel that reads the table of a pool finds its metadata, its data, its size, its
/// blocks and its low water mark where it expects each.
pub proof fn law_pool_table_reads_back(
    metadata_dev: Seq<char>,
    data_dev: Seq<char>,
    data_sectors: u64,
    block_sectors: u32,
    low_water_blocks: u64,
)
    requires
        text_laws::free_of(metadata_dev, ' '),
        text_laws::free_of(data_dev, ' '),
    ensures
        is_pool_table(
            pool::table_text(
                metadata_dev,
                data_dev,
                data_sectors,
                block_sectors,
                low_water_blocks,
            ),
            metadata_dev,
            data_dev,
            data_sectors,
            block_sectors,
            low_water_blocks,
        ),
{
    let line = pool::table_text(
        metadata_dev,
        data_dev,
        data_sectors,
        block_sectors,
        low_water_blocks,
    );
    reveal_strlit("0 ");
    reveal_strlit(" thin-pool ");
    reveal_strlit("thin-pool");
    reveal_strlit(" ");
    let n = text::dec(data_sectors as nat);
    let b = text::dec(block_sectors as nat);
    let w = text::dec(low_water_blocks as nat);
    let zero = text::dec(0);
    let p1 = seq![zero];
    let p2 = p1.push(n);
    let p3 = p2.push("thin-pool"@);
    let p4 = p3.push(metadata_dev);
    let p5 = p4.push(data_dev);
    let p6 = p5.push(b);
    let p7 = p6.push(w);
    text_laws::lemma_strung_push(p1, n, ' ');
    text_laws::lemma_strung_push(p2, "thin-pool"@, ' ');
    text_laws::lemma_strung_push(p3, metadata_dev, ' ');
    text_laws::lemma_strung_push(p4, data_dev, ' ');
    text_laws::lemma_strung_push(p5, b, ' ');
    text_laws::lemma_strung_push(p6, w, ' ');
    assert(zero =~= seq!['0']);
    assert(line =~= text_laws::strung(p7, ' '));
    text_laws::lemma_numbers_are_digits(0, ' ');
    text_laws::lemma_numbers_are_digits(data_sectors as nat, ' ');
    text_laws::lemma_numbers_are_digits(block_sectors as nat, ' ');
    text_laws::lemma_numbers_are_digits(low_water_blocks as nat, ' ');
    assert forall|k: int| 0 <= k < p7.len() implies text_laws::free_of(#[trigger] p7[k], ' ') by {
        assert(k == 0 || k == 1 || k == 2 || k == 3 || k == 4 || k == 5 || k == 6);
    }
    text_laws::law_split_undoes_string(p7, ' ');
    text::lemma_parse_of_dec(0, u64::MAX as nat);
    text::lemma_parse_of_dec(data_sectors as nat, u64::MAX as nat);
    text::lemma_parse_of_dec(block_sectors as nat, u64::MAX as nat);
    text::lemma_parse_of_dec(low_water_blocks as nat, u64::MAX as nat);
}

/// Whether a message makes one volume a snapshot of another.
pub open spec fn makes_snapshot(msg: Seq<char>, id: u64, of: u64) -> bool {
    let f = text::split_char(msg, ' ');
    &&& f.len() == 3
    &&& f[0] == "create_snap"@
    &&& text::parse_uint(f[1], u64::MAX as nat) == Ok::<nat, text::IntError>(id as nat)
    &&& text::parse_uint(f[2], u64::MAX as nat) == Ok::<nat, text::IntError>(of as nat)
}

/// A pool that reads the message for a snapshot makes the fresh volume from the given
/// one, not the other way round.
pub proof fn law_snapshot_is_of_its_source(id: u64, of: u64)
    ensures
        makes_snapshot(thin::create_snap_text(id, of), id, of),
{
    let msg = thin::create_snap_text(id, of);
    reveal_strlit("create_snap ");
    reveal_strlit("create_snap");
    reveal_strlit(" ");
    let a = text::dec(id as nat);
    let b = text::dec(of as nat);
    let p1 = seq!["create_snap"@];
    let p2 = p1.push(a);
    let p3 = p2.push(b);
    text_laws::lemma_strung_push(p1, a, ' ');
    text_laws::lemma_strung_push(p2, b, ' ');
    assert(msg =~= text_laws::strung(p3, ' '));
    text_laws::lemma_numbers_are_digits(id as nat, ' ');
    text_laws::lemma_numbers_are_digits(of as nat, ' ');
    assert forall|k: int| 0 <= k < p3.len() implies text_laws::free_of(#[trigger] p3[k], ' ') by {
        assert(k == 0 || k == 1 || k == 2);
    }
    text_laws::law_split_undoes_string(p3, ' ');
    text::lemma_parse_of_dec(id as nat, u64::MAX as nat);
    text::lemma_parse_of_dec(of as nat, u64::MAX as nat);
}

/// Whether a message makes an empty volume.
pub open spec fn makes_volume(msg: Seq<char>, id: u64) -> bool {
    let f = text::split_char(msg, ' ');
    &&& f.len() == 2
    &&& f[0] == "create_thin"@
    &&& text::parse_uint(f[1], u64::MAX as nat) == Ok::<nat, text::IntError>(id as nat)
}

/// A pool that reads the message for a volume makes one of that number.
pub proof fn law_volume_gets_its_number(id: u64)
    ensures
        makes_volume(thin::create_thin_text(id), id),
{
    let msg = thin::create_thin_text(id);
    reveal_strlit("create_thin ");
    reveal_strlit("create_thin");
    let a = text::dec(id as nat);
    let p1 = seq!["create_thin"@];
    let p2 = p1.push(a);
    text_laws::lemma_strung_push(p1, a, ' ');
    assert(msg =~= text_laws::strung(p2, ' '));
    text_laws::lemma_numbers_are_digits(id as nat, ' ');
    assert forall|k: int| 0 <= k < p2.len() implies text_laws::free_of(#[trigger] p2[k], ' ') by {
        assert(k == 0 || k == 1);
    }
    text_laws::law_split_undoes_string(p2, ' ');
    text::lemma_parse_of_dec(id as nat, u64::MAX as nat);
}

/// Whether a line is what the kernel shows of a pool: its blocks for metadata and for
/// data as used of all, each in its place, and its mode.
pub open spec fn shows_pool(line: Seq<char>, s: pool::PoolStatus, mode: Seq<char>) -> bool {
    let f = text::words(line);
    &&& f.len() >= 8
    &&& f[2] == "thin-pool"@
    &&& f[4] == text::dec(s.used_metadata_blocks as nat).push('/') + text::dec(
        s.total_metadata_blocks as nat,
    )
    &&& f[5] == text::dec(s.used_data_blocks as nat).push('/') + text::dec(
        s.total_data_blocks as nat,
    )
    &&& f[7] == mode
}

/// Whether the kernel calls a mode by that word.
pub open spec fn is_mode_word(mode: pool::PoolMode, word: Seq<char>) -> bool {
    match mode {
        pool::PoolMode::ReadWrite => word == "rw"@,
        pool::PoolMode::ReadOnly => word == "ro"@,
        pool::PoolMode::OutOfDataSpace => word == "out_of_data_space"@,
        pool::PoolMode::Failed => word == "Fail"@ || word == "failed"@,
    }
}

proof fn lemma_fraction(a: u64, b: u64)
    ensures
        pool::fraction(text::dec(a as nat).push('/') + text::dec(b as nat)) == Ok::<
            (u64, u64),
            Seq<char>,
        >((a, b)),
{
    text_laws::lemma_numbers_are_digits(a as nat, '/');
    text_laws::law_halves(text::dec(a as nat), text::dec(b as nat), '/');
    text::lemma_parse_of_dec(a as nat, u64::MAX as nat);
    text::lemma_parse_of_dec(b as nat, u64::MAX as nat);
}

/// What the kernel shows of a pool is read as what it is: no number is taken for
/// another one.
pub proof fn law_status_reads_back(line: Seq<char>, s: pool::PoolStatus, mode: Seq<char>)
    requires
        shows_pool(line, s, mode),
        is_mode_word(s.mode, mode),
    ensures
        pool::status_of(line) == Ok::<pool::PoolStatus, Seq<char>>(s),
{
    lemma_fraction(s.used_metadata_blocks, s.total_metadata_blocks);
    lemma_fraction(s.used_data_blocks, s.total_data_blocks);
    reveal_strlit("rw");
    reveal_strlit("ro");
    reveal_strlit("out_of_data_space");
    reveal_strlit("Fail");
    reveal_strlit("failed");
    assert("rw"@[1] == 'w' && "ro"@[1] == 'o');
    assert("rw"@.len() == 2 && "ro"@.len() == 2 && "out_of_data_space"@.len() == 17);
    assert("Fail"@.len() == 4 && "failed"@.len() == 6);
}

/// The device of a VM is never that of an image, nor that of an image in the making.
pub proof fn law_vms_and_images_have_different_devices(
    ns: Option<Seq<char>>,
    vm: Seq<char>,
    image: Seq<char>,
)
    ensures
        thin::vm_prefix_text(ns) + vm != thin::image_prefix_text(ns) + image,
        thin::vm_prefix_text(ns) + vm != thin::image_prefix_text(ns) + image + "-staging"@,
        thin::image_prefix_text(ns) + image != thin::image_prefix_text(ns) + image + "-staging"@,
{
    reveal_strlit("ember-vm-");
    reveal_strlit("ember-img-");
    reveal_strlit("ember-");
    reveal_strlit("-vm-");
    reveal_strlit("-img-");
    reveal_strlit("-staging");
    let v = thin::vm_prefix_text(ns) + vm;
    let i = thin::image_prefix_text(ns) + image;
    let s = i + "-staging"@;
    let at: int = match ns {
        Some(id) => 7 + id.len() as int,
        None => 6,
    };
    assert(v[at] == 'v' && i[at] == 'i' && s[at] == 'i');
    assert(s.len() == i.len() + 8);
}

/// Different installations, or an old one and one with a namespace that names no part
/// of a device, have different devices for their VMs.
pub proof fn law_installations_have_different_devices(
    a: Seq<char>,
    b: Seq<char>,
    vm: Seq<char>,
    other: Seq<char>,
)
    requires
        a != b,
        a.len() == b.len(),
    ensures
        thin::vm_prefix_text(Some(a)) + vm != thin::vm_prefix_text(Some(b)) + other,
        thin::image_prefix_text(Some(a)) + vm != thin::image_prefix_text(Some(b)) + other,
{
    reveal_strlit("ember-");
    let n = a.len() as int;
    let x = thin::vm_prefix_text(Some(a)) + vm;
    let y = thin::vm_prefix_text(Some(b)) + other;
    assert(x.subrange(6, 6 + n) =~= a);
    assert(y.subrange(6, 6 + n) =~= b);
    let p = thin::image_prefix_text(Some(a)) + vm;
    let q = thin::image_prefix_text(Some(b)) + other;
    assert(p.subrange(6, 6 + n) =~= a);
    assert(q.subrange(6, 6 + n) =~= b);
}

/// The metadata and the data of a pool are never in the same place in one directory;
/// the metadata of a pool on a block device does not depend on that device, whose
/// whole is the data.
pub proof fn law_metadata_and_data_are_apart(
    storage: Seq<char>,
    other: Seq<char>,
    state_dir: Seq<char>,
)
    ensures
        storage::metadata_path_text(storage, state_dir, DmThinMode::File)
            != storage::data_path_text(storage, DmThinMode::File),
        storage::metadata_path_text(storage, state_dir, DmThinMode::RawDevice)
            == storage::metadata_path_text(other, state_dir, DmThinMode::RawDevice),
        storage::metadata_path_text(storage, state_dir, DmThinMode::RawDevice)
            == paths::joined(state_dir, "dm-thin-metadata.img"@),
        storage::data_path_text(storage, DmThinMode::RawDevice) == storage,
        storage::metadata_path_text(storage, state_dir, DmThinMode::File) == paths::joined(
            storage,
            "metadata.img"@,
        ),
        storage::data_path_text(storage, DmThinMode::File) == paths::joined(storage, "data.img"@),
{
    reveal_strlit("metadata.img");
    reveal_strlit("data.img");
    let m = storage::metadata_path_text(storage, state_dir, DmThinMode::File);
    let d = storage::data_path_text(storage, DmThinMode::File);
    assert("metadata.img"@.len() == 12 && "data.img"@.len() == 8);
    assert("metadata.img"@[0] == 'm' && "data.img"@[0] == 'd');
    assert(m.len() == d.len() + 4);
}

/// The metadata of a pool gets the size that is recommended, as far as the kernel goes
/// along: never less than 32 MiB, never more than 16 GiB, and as near to it as that
/// allows.
pub proof fn law_metadata_size_is_the_nearest(n: u64, other: u64)
    requires
        33_554_432 <= other <= 17_179_869_184,
    ensures
        33_554_432 <= storage::clamped(n) <= 17_179_869_184,
        n <= storage::clamped(n) ==> storage::clamped(n) - n <= other - n || other <= n,
        n >= storage::clamped(n) ==> n - storage::clamped(n) <= n - other || other >= n,
        33_554_432 <= n <= 17_179_869_184 ==> storage::clamped(n) == n,
{
}

/// What starts with a prefix is picked from a listing: all of it, and nothing else.
pub proof fn law_prefix_picks(v: Seq<Seq<char>>, prefix: Seq<char>, x: Seq<char>)
    ensures
        pool::prefixed(v, prefix).contains(x) <==> v.contains(x) && prefix.is_prefix_of(x),
    decreases v.len(),
{
    if v.len() > 0 {
        let d = v.drop_last();
        let b = pool::prefixed(d, prefix);
        let w = pool::prefixed(v, prefix);
        law_prefix_picks(d, prefix, x);
        if w.contains(x) {
            let i = choose|i: int| 0 <= i < w.len() && w[i] == x;
            if i < b.len() {
                assert(b[i] == x);
                let k = choose|k: int| 0 <= k < d.len() && d[k] == x;
                assert(v[k] == x);
            } else {
                assert(v[v.len() - 1] == x);
            }
        }
        if v.contains(x) && prefix.is_prefix_of(x) {
            let k = choose|k: int| 0 <= k < v.len() && v[k] == x;
            if k < d.len() {
                assert(d[k] == x);
                let i = choose|i: int| 0 <= i < b.len() && b[i] == x;
                assert(w[i] == x);
            } else {
                assert(w[w.len() - 1] == x);
            }
        }
    } else {
        assert(!v.contains(x));
        assert(!pool::prefixed(v, prefix).contains(x));
    }
}

/// A listing names a device exactly where a line starts with its name.
pub proof fn law_lines_name_devices(lines: Seq<Seq<char>>, x: Seq<char>)
    ensures
        pool::first_words(lines).contains(x) <==> exists|i: int|
            0 <= i < lines.len() && text::words(#[trigger] lines[i]).len() > 0 && text::words(
                lines[i],
            )[0] == x,
    decreases lines.len(),
{
    if lines.len() > 0 {
        let d = lines.drop_last();
        let n = d.len() as int;
        let b = pool::first_words(d);
        let w = pool::first_words(lines);
        law_lines_name_devices(d, x);
        if w.contains(x) {
            let i = choose|i: int| 0 <= i < w.len() && w[i] == x;
            if i < b.len() {
                assert(b[i] == x);
                let k = choose|k: int|
                    0 <= k < d.len() && text::words(#[trigger] d[k]).len() > 0 && text::words(
                        d[k],
                    )[0] == x;
                assert(lines[k] == d[k]);
            } else {
                assert(text::words(lines[n])[0] == x);
            }
        }
        if exists|i: int|
            0 <= i < lines.len() && text::words(#[trigger] lines[i]).len() > 0 && text::words(
                lines[i],
            )[0] == x {
            let k = choose|i: int|
                0 <= i < lines.len() && text::words(#[trigger] lines[i]).len() > 0 && text::words(
                    lines[i],
                )[0] == x;
            if k < n {
                assert(d[k] == lines[k]);
                let i = choose|i: int| 0 <= i < b.len() && b[i] == x;
                assert(w[i] == x);
            } else {
                assert(w[w.len() - 1] == x);
            }
        }
    } else {
        assert(!pool::first_words(lines).contains(x));
    }
}

/// The storage of an installation is what its configuration says, wherever it says
/// something. A layout that it does not name is found by looking: what is there and
/// is no directory is a device, anything else a directory of files. Blocks are of
/// 64 KiB unless another size is named.
pub proof fn law_storage_is_as_configured(
    s: storage::DmThinStorage,
    config: GlobalConfig,
    path_is_dir: bool,
    path_found: bool,
)
    requires
        s.described(config, path_is_dir, path_found),
    ensures
        config.storage_path matches Some(p) ==> s.storage_path@ == p@,
        config.storage_path is None ==> s.storage_path@ == "/var/lib/ember/dm-thin"@,
        s.state_dir@ == config.state_dir@,
        config.dm_thin_mode matches Some(m) ==> s.mode == m,
        config.dm_thin_mode is None ==> (s.mode == DmThinMode::RawDevice <==> path_found
            && !path_is_dir),
        config.dm_thin_block_size matches Some(b) ==> s.block_size_sectors == b,
        config.dm_thin_block_size is None ==> s.block_size_sectors * 512 == 64 * 1024,
{
}

/// Metadata is never smaller than 32 MiB nor larger than 16 GiB, and a size between
/// the two stays as it is.
pub proof fn law_metadata_size(n: u64)
    ensures
        32 * 1024 * 1024 <= storage::clamped(n) <= 16 * 1024 * 1024 * 1024,
        32 * 1024 * 1024 <= n <= 16 * 1024 * 1024 * 1024 ==> storage::clamped(n) == n,
{
}

/// Volume numbers have 24 bits.
pub proof fn law_volume_numbers_fit(id: u64)
    ensures
        id <= thin::MAX_DEV_ID <==> id < 0x100_0000,
{
}

/// A loop device is named before the first colon of the answer.
pub proof fn law_loop_device_is_named(name: Seq<char>, rest: Seq<char>)
    requires
        name.len() > 0,
        text_laws::solid(name),
        text_laws::free_of(name, ':'),
        text_laws::free_of(rest, '\n') && text_laws::free_of(rest, '\r'),
    ensures
        loop_device::first_device((name.push(':') + rest).push('\n')) == Some(name),
        loop_device::first_device(Seq::empty()) is None,
{
    let line = name.push(':') + rest;
    let parts = seq![line];
    assert forall|i: int| 0 <= i < line.len() implies #[trigger] line[i] != '\n' && line[i] != '\r' by {
        if i < name.len() {
            assert(line[i] == name[i]);
            assert(!text::is_white(name[i]));
        } else if i > name.len() {
            assert(line[i] == rest[i - name.len() - 1]);
        }
    }
    text_laws::law_lines(parts);
    let none = Seq::<char>::empty();
    text_laws::lemma_strung_push(parts, none, '\n');
    assert(text_laws::strung(parts, '\n') == line);
    assert(line.push('\n') + none =~= line.push('\n'));
    text_laws::law_halves(name, rest, ':');
    assert(!text::is_white(name[0]));
    assert(!text::is_white(name[name.len() - 1]));
    assert(text::trim(name) == name);
    text_laws::law_lines(Seq::empty());
    assert(text_laws::strung(Seq::<Seq<char>>::empty().push(none), '\n') =~= none);
}

/// The number of a volume is the low 24 bits of what was drawn.
pub proof fn law_volume_number_is_drawn(raw: u32)
    ensures
        thin::id_in(raw) matches Some(id) ==> id == (raw & 0xff_ffff) as u64,
        thin::id_in(raw) is None <==> raw & 0xff_ffff == 0,
{
    assert(raw & 0xff_ffff == raw % 0x100_0000) by (bit_vector);
}

/// A name for device-mapper keeps the letters and digits of ASCII, dashes and
/// underscores where they are, and has an underscore for everything else.
pub proof fn law_names_for_the_mapper(s: Seq<char>, i: int)
    requires
        0 <= i < s.len(),
    ensures
        thin::sanitized(s).len() == s.len(),
        ('a' <= s[i] && s[i] <= 'z') || ('A' <= s[i] && s[i] <= 'Z') || ('0' <= s[i] && s[i] <= '9')
            || s[i] == '-' || s[i] == '_' ==> thin::sanitized(s)[i] == s[i],
        !(('a' <= s[i] && s[i] <= 'z') || ('A' <= s[i] && s[i] <= 'Z') || ('0' <= s[i] && s[i]
            <= '9') || s[i] == '-' || s[i] == '_') ==> thin::sanitized(s)[i] == '_',
{
}

proof fn lemma_whole_units(k: nat, unit: nat)
    requires
        0 < unit,
        k * unit < 0x20_0000_0000_0000,
    ensures
        storage::one_decimal(k * unit, unit) == text::dec(k) + ".0"@,
{
    let n = k * unit;
    reveal_strlit(".");
    reveal_strlit(".0");
    vstd::arithmetic::power2::lemma2_to64();
    assert(storage::surplus_bits(n) == 0);
    assert(n / 1 == n && n % 1 == 0);
    assert(storage::as_double(n) == n);
    assert(10 * n == (10 * k) * unit) by (nonlinear_arith)
        requires
            n == k * unit,
    ;
    vstd::arithmetic::div_mod::lemma_div_multiples_vanish((10 * k) as int, unit as int);
    vstd::arithmetic::div_mod::lemma_mod_multiples_basic((10 * k) as int, unit as int);
    assert((10 * k) * unit == unit * (10 * k)) by (nonlinear_arith);
    assert(storage::half_even(10 * n, unit) == 10 * k);
    assert((10 * k) / 10 == k && (10 * k) % 10 == 0);
    assert(text::dec(0) =~= seq!['0']);
    assert(storage::one_decimal(n, unit) =~= text::dec(k) + ".0"@);
}

/// A size of whole MiB, GiB or TiB is shown as so many of them, and one below a MiB
/// in bytes.
pub proof fn law_whole_sizes_are_shown(k: nat)
    requires
        0 < k < 1024,
    ensures
        storage::bytes_text(k) == text::dec(k) + " B"@,
        storage::bytes_text(k * 0x10_0000) == text::dec(k) + ".0"@ + " MiB"@,
        storage::bytes_text(k * 0x4000_0000) == text::dec(k) + ".0"@ + " GiB"@,
        storage::bytes_text(k * 0x100_0000_0000) == text::dec(k) + ".0"@ + " TiB"@,
{
    lemma_whole_units(k, 0x10_0000);
    lemma_whole_units(k, 0x4000_0000);
    lemma_whole_units(k, 0x100_0000_0000);
}

/// An installation with a name has it in the name of its pool and in those of all its
/// volumes, and two such installations have two pools.
pub proof fn law_installations_have_pools_of_their_own(a: Seq<char>, b: Seq<char>)
    ensures
        text::contains_text(pool::pool_text(Some(a)), "-"@ + a + "-"@),
        text::contains_text(thin::image_prefix_text(Some(a)), "-"@ + a + "-"@),
        text::contains_text(thin::vm_prefix_text(Some(a)), "-"@ + a + "-"@),
        pool::pool_text(Some(a)) == pool::pool_text(Some(b)) ==> a == b,
{
    reveal_strlit("ember-");
    reveal_strlit("-");
    reveal_strlit("-pool");
    reveal_strlit("-img-");
    reveal_strlit("-vm-");
    let m = "-"@ + a + "-"@;
    let p = pool::pool_text(Some(a));
    let i = thin::image_prefix_text(Some(a));
    let v = thin::vm_prefix_text(Some(a));
    assert(p.subrange(5, 5 + m.len() as int) =~= m);
    assert(i.subrange(5, 5 + m.len() as int) =~= m);
    assert(v.subrange(5, 5 + m.len() as int) =~= m);
    assert(text::occurs_at(p, m, 5));
    assert(text::occurs_at(i, m, 5));
    assert(text::occurs_at(v, m, 5));
    let q = pool::pool_text(Some(b));
    if p == q {
        assert(a.len() == b.len());
        assert(p.subrange(6, 6 + a.len() as int) =~= a);
        assert(q.subrange(6, 6 + b.len() as int) =~= b);
    }
}

/// The pool and the volumes of an installation are named after it: by the names that
/// they always had where it has no name, and by its own where it has one.
pub proof fn law_pool_is_named_after_the_installation(
    s: storage::DmThinStorage,
    config: GlobalConfig,
    path_is_dir: bool,
    path_found: bool,
)
    requires
        s.described(config, path_is_dir, path_found),
    ensures
        config.instance_id@.len() == 0 ==> s.pool_name@ == "ember-pool"@ && s.image_prefix@
            == "ember-img-"@ && s.vm_prefix@ == "ember-vm-"@,
        config.instance_id@.len() > 0 ==> s.pool_name@ == pool::pool_text(Some(config.instance_id@))
            && s.image_prefix@ == thin::image_prefix_text(Some(config.instance_id@)) && s.vm_prefix@
            == thin::vm_prefix_text(Some(config.instance_id@)),
{
}

} // verus!
