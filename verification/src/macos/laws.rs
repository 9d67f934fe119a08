//! What holds of what a macOS host is told and of what it reads, whatever it is.
use crate::command::Outcome;
use crate::config::GlobalConfig;
use crate::error::{CommandOutput, Error};
use crate::macos::network;
use crate::macos::platform;
use crate::macos::storage;
use crate::macos::vm;
use crate::network::ip;
use crate::path_laws;
use crate::paths;
use crate::state::vm::{NetworkInfo, VmMetadata};
use crate::text;
use crate::text_laws;
use vstd::prelude::*;

verus! {

/// The guest kernel gets the address of the guest as the first field of its `ip=`
/// argument, that of the host as its gateway, and the netmask, name and device in
/// the fields that are theirs. It gets what it was to be booted with before that,
/// and nothing else where the VM has no network.
pub proof fn law_guest_kernel_gets_its_address(vm: VmMetadata)
    requires
        vm.network matches Some(n) ==> text_laws::free_of(n.guest_ip@, ':') && text_laws::free_of(
            n.host_ip@,
            ':',
        ) && text_laws::free_of(n.netmask@, ':') && text_laws::free_of(vm.name@, ':'),
    ensures
        ({
            let base = match vm.boot_args {
                Some(b) => b@,
                None => "console=hvc0 root=/dev/vda rw"@,
            };
            let s = vm::boot_args_text(vm);
            match vm.network {
                None => s == base,
                Some(n) => {
                    let head = base + " ip="@;
                    &&& head.is_prefix_of(s)
                    &&& text::split_char(s.skip(head.len() as int), ':') == seq![
                        n.guest_ip@,
                        Seq::empty(),
                        n.host_ip@,
                        n.netmask@,
                        vm.name@,
                        "eth0"@,
                        "off"@,
                    ]
                },
            }
        }),
{
    if vm.network is Some {
        let n = vm.network->0;
        let base = match vm.boot_args {
            Some(b) => b@,
            None => "console=hvc0 root=/dev/vda rw"@,
        };
        let head = base + " ip="@;
        let s = vm::boot_args_text(vm);
        reveal_strlit("::");
        reveal_strlit(":");
        reveal_strlit(":eth0:off");
        reveal_strlit("eth0");
        reveal_strlit("off");
        let none = Seq::<char>::empty();
        let a1 = seq![n.guest_ip@];
        let a2 = a1.push(none);
        let a3 = a2.push(n.host_ip@);
        let a4 = a3.push(n.netmask@);
        let a5 = a4.push(vm.name@);
        let a6 = a5.push("eth0"@);
        let a7 = a6.push("off"@);
        text_laws::lemma_strung_push(a1, none, ':');
        text_laws::lemma_strung_push(a2, n.host_ip@, ':');
        text_laws::lemma_strung_push(a3, n.netmask@, ':');
        text_laws::lemma_strung_push(a4, vm.name@, ':');
        text_laws::lemma_strung_push(a5, "eth0"@, ':');
        text_laws::lemma_strung_push(a6, "off"@, ':');
        assert(text_laws::strung(a1, ':') == n.guest_ip@);
        let t = text_laws::strung(a7, ':');
        let tail = n.guest_ip@ + "::"@ + n.host_ip@ + ":"@ + n.netmask@ + ":"@ + vm.name@
            + ":eth0:off"@;
        assert(t =~= tail);
        assert(s =~= head + tail);
        assert(s.skip(head.len() as int) =~= tail);
        assert forall|k: int| 0 <= k < a7.len() implies text_laws::free_of(#[trigger] a7[k], ':') by {}
        text_laws::law_split_undoes_string(a7, ':');
        assert(a7 =~= seq![
            n.guest_ip@,
            Seq::empty(),
            n.host_ip@,
            n.netmask@,
            vm.name@,
            "eth0"@,
            "off"@,
        ]);
    }
}

/// A line of a list of users gives the user the number in its third field and the
/// group that in its fourth, and a line about another user or of too few fields
/// gives nothing.
pub proof fn law_users_have_their_numbers(
    user: Seq<char>,
    password: Seq<char>,
    uid: u32,
    gid: u32,
    more: Seq<Seq<char>>,
    rest: Seq<Seq<char>>,
    other: Seq<char>,
)
    requires
        text_laws::free_of(user, ':'),
        text_laws::free_of(password, ':'),
        forall|k: int| 0 <= k < more.len() ==> text_laws::free_of(#[trigger] more[k], ':'),
    ensures
        ({
            let fields = seq![user, password, text::dec(uid as nat), text::dec(gid as nat)] + more;
            let lines = seq![text_laws::strung(fields, ':')] + rest;
            &&& storage::passwd_ids(lines, user) == Some((uid, gid))
            &&& other != user ==> storage::passwd_ids(lines, other) == storage::passwd_ids(
                rest,
                other,
            )
        }),
        storage::passwd_ids(Seq::empty(), user) is None,
{
    let fields = seq![user, password, text::dec(uid as nat), text::dec(gid as nat)] + more;
    let line = text_laws::strung(fields, ':');
    let lines = seq![line] + rest;
    text_laws::lemma_numbers_are_digits(uid as nat, ':');
    text_laws::lemma_numbers_are_digits(gid as nat, ':');
    assert forall|k: int| 0 <= k < fields.len() implies text_laws::free_of(#[trigger] fields[k], ':') by {
        if k >= 4 {
            assert(fields[k] == more[k - 4]);
        }
    }
    text_laws::law_split_undoes_string(fields, ':');
    text::lemma_parse_of_dec(uid as nat, u32::MAX as nat);
    text::lemma_parse_of_dec(gid as nat, u32::MAX as nat);
    assert(lines[0] == line);
    assert(lines.skip(1) =~= rest);
    assert(fields[0] == user && fields[2] == text::dec(uid as nat) && fields[3] == text::dec(
        gid as nat,
    ));
}

proof fn lemma_untrimmed(s: Seq<char>)
    requires
        s.len() > 0,
        !text::is_white(s[0]),
        !text::is_white(s.last()),
    ensures
        text::trim(s) == s,
{
}

/// What the tool says about a file names its owner: the number after `User:` is the
/// user, that after `Group:` the group. Lines that name no user are passed over.
pub proof fn law_owner_is_named(uid: u32, gid: u32, line: Seq<char>, rest: Seq<Seq<char>>)
    ensures
        ({
            let named = text_laws::strung(
                seq!["User:"@, text::dec(uid as nat), "Group:"@, text::dec(gid as nat)],
                ' ',
            );
            &&& storage::owner_ids(seq![named] + rest) == Some((uid, gid))
            &&& !"User:"@.is_prefix_of(text::trim(line)) ==> storage::owner_ids(seq![line] + rest)
                == storage::owner_ids(rest)
        }),
        storage::owner_ids(Seq::empty()) is None,
{
    reveal_strlit("User:");
    reveal_strlit("Group:");
    let u = text::dec(uid as nat);
    let g = text::dec(gid as nat);
    text_laws::lemma_numbers_are_digits(uid as nat, ' ');
    text_laws::lemma_numbers_are_digits(gid as nat, ' ');
    let a1 = seq!["User:"@];
    let a2 = a1.push(u);
    let a3 = a2.push("Group:"@);
    let a4 = a3.push(g);
    text_laws::lemma_strung_push(a1, u, ' ');
    text_laws::lemma_strung_push(a2, "Group:"@, ' ');
    text_laws::lemma_strung_push(a3, g, ' ');
    assert(a4 =~= seq!["User:"@, u, "Group:"@, g]);
    let named = text_laws::strung(a4, ' ');
    let three = Seq::<char>::empty().push(' ') + u;
    let five = three.push(' ') + "Group:"@;
    let after = five.push(' ') + g;
    assert(named =~= "User:"@ + after);
    text::lemma_value_of_dec(gid as nat);
    assert(named.last() == g.last());
    assert(named[0] == 'U');
    assert(text_laws::solid(g));
    assert(!text::is_white(g[g.len() - 1]));
    lemma_untrimmed(named);
    assert("User:"@.is_prefix_of(named));
    assert(named.skip(5) =~= after);
    text_laws::law_no_words();
    text_laws::law_words_append(Seq::empty(), u, ' ');
    text_laws::law_words_append(three, "Group:"@, ' ');
    text_laws::law_words_append(five, g, ' ');
    let w = text::words(after);
    assert(w =~= seq![u, "Group:"@, g]);
    text::lemma_parse_of_dec(uid as nat, u32::MAX as nat);
    text::lemma_parse_of_dec(gid as nat, u32::MAX as nat);
    let lines = seq![named] + rest;
    assert(lines[0] == named);
    assert((seq![line] + rest).skip(1) =~= rest);
    assert((seq![line] + rest)[0] == line);
}

/// The commands that give a key to its owner, each as its words: the directory is
/// made, the key is written into the file in it, and both get their mode and the
/// numbers of the user and the group.
pub open spec fn key_commands(home: Seq<char>, uid: u32, gid: u32, pubkey: Seq<char>) -> Seq<
    Seq<Seq<char>>,
> {
    let dir = home + "/.ssh"@;
    let file = home + "/.ssh/authorized_keys"@;
    seq![
        seq!["mkdir"@, dir],
        seq!["write"@, pubkey, file],
        seq!["set_inode_field"@, dir, "mode"@, "040700"@],
        seq!["set_inode_field"@, dir, "uid"@, text::dec(uid as nat)],
        seq!["set_inode_field"@, dir, "gid"@, text::dec(gid as nat)],
        seq!["set_inode_field"@, file, "mode"@, "0100600"@],
        seq!["set_inode_field"@, file, "uid"@, text::dec(uid as nat)],
        seq!["set_inode_field"@, file, "gid"@, text::dec(gid as nat)],
    ]
}

proof fn lemma_line(words: Seq<Seq<char>>)
    requires
        words.len() > 0,
        forall|k: int|
            0 <= k < words.len() ==> text_laws::solid(#[trigger] words[k]) && words[k].len() > 0,
    ensures
        text::words(text_laws::strung(words, ' ')) == words,
        text_laws::free_of(text_laws::strung(words, ' '), '\n'),
        text_laws::free_of(text_laws::strung(words, ' '), '\r'),
    decreases words.len(),
{
    text_laws::law_words(words);
    let s = text_laws::strung(words, ' ');
    let l = words[words.len() - 1];
    assert(text_laws::solid(l));
    if words.len() == 1 {
        assert forall|i: int| 0 <= i < s.len() implies #[trigger] s[i] != '\n' && s[i] != '\r' by {
            assert(!text::is_white(l[i]));
        }
    } else {
        let d = words.drop_last();
        assert forall|k: int| 0 <= k < d.len() implies text_laws::solid(#[trigger] d[k]) && d[k].len()
            > 0 by {
            assert(d[k] == words[k]);
        }
        lemma_line(d);
        let h = text_laws::strung(d, ' ');
        assert forall|i: int| 0 <= i < s.len() implies #[trigger] s[i] != '\n' && s[i] != '\r' by {
            if i < h.len() {
                assert(s[i] == h[i]);
            } else if i > h.len() {
                assert(s[i] == l[i - h.len() - 1]);
                assert(!text::is_white(l[i - h.len() - 1]));
            }
        }
    }
}

proof fn lemma_field(path: Seq<char>, field: Seq<char>, value: Seq<char>)
    ensures
        storage::set_field(path, field, value) == text_laws::strung(
            seq!["set_inode_field"@, path, field, value],
            ' ',
        ).push('\n'),
{
    reveal_strlit("set_inode_field ");
    reveal_strlit("set_inode_field");
    reveal_strlit(" ");
    reveal_strlit("\n");
    let a1 = seq!["set_inode_field"@];
    let a2 = a1.push(path);
    let a3 = a2.push(field);
    let a4 = a3.push(value);
    text_laws::lemma_strung_push(a1, path, ' ');
    text_laws::lemma_strung_push(a2, field, ' ');
    text_laws::lemma_strung_push(a3, value, ' ');
    assert(a4 =~= seq!["set_inode_field"@, path, field, value]);
    assert(storage::set_field(path, field, value) =~= text_laws::strung(a4, ' ').push('\n'));
}

proof fn lemma_solid_append(a: Seq<char>, b: Seq<char>)
    requires
        text_laws::solid(a),
        text_laws::solid(b),
    ensures
        text_laws::solid(a + b),
{
    let s = a + b;
    assert forall|i: int| 0 <= i < s.len() implies !text::is_white(#[trigger] s[i]) by {
        if i < a.len() {
            assert(s[i] == a[i]);
        } else {
            assert(s[i] == b[i - a.len()]);
        }
    }
}

/// What puts a key into a disk is one line for each of those commands, in that
/// order, for any home directory and any key without white space.
pub proof fn law_key_goes_to_its_owner(
    home: Seq<char>,
    uid: u32,
    gid: u32,
    pubkey: Seq<char>,
    k: int,
)
    requires
        text_laws::solid(home),
        text_laws::solid(pubkey) && pubkey.len() > 0,
        0 <= k < 8,
    ensures
        text::lines(storage::key_script_text(home, uid, gid, pubkey)).len() == 8,
        text::words(text::lines(storage::key_script_text(home, uid, gid, pubkey))[k]) == key_commands(
            home,
            uid,
            gid,
            pubkey,
        )[k],
{
    let dir = home + "/.ssh"@;
    let file = home + "/.ssh/authorized_keys"@;
    let c = key_commands(home, uid, gid, pubkey);
    reveal_strlit("/.ssh");
    reveal_strlit("/.ssh/authorized_keys");
    reveal_strlit("mkdir ");
    reveal_strlit("mkdir");
    reveal_strlit("write ");
    reveal_strlit("write");
    reveal_strlit("set_inode_field");
    reveal_strlit("mode");
    reveal_strlit("040700");
    reveal_strlit("0100600");
    reveal_strlit("uid");
    reveal_strlit("gid");
    reveal_strlit(" ");
    reveal_strlit("\n");
    lemma_solid_append(home, "/.ssh"@);
    lemma_solid_append(home, "/.ssh/authorized_keys"@);
    text_laws::lemma_numbers_are_digits(uid as nat, ' ');
    text_laws::lemma_numbers_are_digits(gid as nat, ' ');
    let parts = Seq::new(8, |i: int| text_laws::strung(c[i], ' '));
    assert forall|i: int| 0 <= i < 8 implies text_laws::free_of(#[trigger] parts[i], '\n')
        && text_laws::free_of(parts[i], '\r') && text::words(parts[i]) == c[i] by {
        let w = c[i];
        assert forall|j: int| 0 <= j < w.len() implies text_laws::solid(#[trigger] w[j]) && w[j].len()
            > 0 by {}
        lemma_line(w);
    }
    text_laws::law_lines(parts);
    lemma_field(dir, "mode"@, "040700"@);
    lemma_field(dir, "uid"@, text::dec(uid as nat));
    lemma_field(dir, "gid"@, text::dec(gid as nat));
    lemma_field(file, "mode"@, "0100600"@);
    lemma_field(file, "uid"@, text::dec(uid as nat));
    lemma_field(file, "gid"@, text::dec(gid as nat));
    assert(parts[0] == "mkdir"@.push(' ') + dir) by {
        text_laws::lemma_strung_push(seq!["mkdir"@], dir, ' ');
        assert(seq!["mkdir"@].push(dir) =~= c[0]);
    }
    assert(parts[1] == ("write"@.push(' ') + pubkey).push(' ') + file) by {
        let a = seq!["write"@];
        text_laws::lemma_strung_push(a, pubkey, ' ');
        text_laws::lemma_strung_push(a.push(pubkey), file, ' ');
        assert(a.push(pubkey).push(file) =~= c[1]);
    }
    let none = Seq::<char>::empty();
    let q = parts.push(none);
    lemma_script(q);
    let s = storage::key_script_text(home, uid, gid, pubkey);
    assert(s =~= text_laws::strung(q, '\n'));
}

proof fn lemma_script(q: Seq<Seq<char>>)
    requires
        q.len() == 9,
        q[8].len() == 0,
    ensures
        text_laws::strung(q, '\n') == q[0].push('\n') + q[1].push('\n') + q[2].push('\n')
            + q[3].push('\n') + q[4].push('\n') + q[5].push('\n') + q[6].push('\n')
            + q[7].push('\n'),
{
    let a1 = seq![q[0]];
    let a2 = a1.push(q[1]);
    let a3 = a2.push(q[2]);
    let a4 = a3.push(q[3]);
    let a5 = a4.push(q[4]);
    let a6 = a5.push(q[5]);
    let a7 = a6.push(q[6]);
    let a8 = a7.push(q[7]);
    let a9 = a8.push(q[8]);
    assert(a9 =~= q);
    text_laws::lemma_strung_push(a1, q[1], '\n');
    text_laws::lemma_strung_push(a2, q[2], '\n');
    text_laws::lemma_strung_push(a3, q[3], '\n');
    text_laws::lemma_strung_push(a4, q[4], '\n');
    text_laws::lemma_strung_push(a5, q[5], '\n');
    text_laws::lemma_strung_push(a6, q[6], '\n');
    text_laws::lemma_strung_push(a7, q[7], '\n');
    text_laws::lemma_strung_push(a8, q[8], '\n');
    assert(text_laws::strung(q, '\n') =~= q[0].push('\n') + q[1].push('\n') + q[2].push('\n')
        + q[3].push('\n') + q[4].push('\n') + q[5].push('\n') + q[6].push('\n')
        + q[7].push('\n'));
}

/// The last lines of a text are as many as were asked for, or all there are, and
/// counted from the end they are those of the text.
pub proof fn law_last_lines(content: Seq<char>, n: nat, k: int)
    requires
        0 <= k,
    ensures
        ({
            let all = text::lines(content);
            let shown = vm::last_lines(content, n);
            &&& shown.len() == (if all.len() <= n { all.len() } else { n })
            &&& k < shown.len() ==> shown[shown.len() - 1 - k] == all[all.len() - 1 - k]
        }),
{
}

/// A route names the interface after `interface:`, and a line that does not start
/// so is passed over.
pub proof fn law_route_names_the_interface(name: Seq<char>, line: Seq<char>, rest: Seq<Seq<char>>)
    requires
        name.len() > 0,
        text_laws::solid(name),
    ensures
        network::first_interface(seq!["interface:"@.push(' ') + name] + rest) == Some(name),
        !"interface:"@.is_prefix_of(text::trim(line)) ==> network::first_interface(
            seq![line] + rest,
        ) == network::first_interface(rest),
        network::first_interface(Seq::empty()) is None,
{
    reveal_strlit("interface:");
    let s = "interface:"@.push(' ') + name;
    assert(s[0] == 'i');
    assert(s.last() == name.last());
    assert(!text::is_white(name[name.len() - 1]));
    lemma_untrimmed(s);
    assert("interface:"@.is_prefix_of(s));
    let after = Seq::<char>::empty().push(' ') + name;
    assert(s.skip(10) =~= after);
    assert(after.skip(1) =~= name);
    assert(text::trim_start(after) == text::trim_start(name));
    assert(!text::is_white(name[0]));
    lemma_untrimmed(name);
    let lines = seq![s] + rest;
    assert(lines[0] == s);
    assert((seq![line] + rest).skip(1) =~= rest);
    assert((seq![line] + rest)[0] == line);
}

/// What is shown of a log is its tail, and after it how the helper ended, where
/// that is known; an empty log is replaced by a hint.
pub proof fn law_tail_is_shown(tail: Seq<Seq<char>>, exit: Option<vm::Exit>)
    ensures
        ({
            let shown = vm::shown_tail(tail, exit);
            &&& tail.is_prefix_of(shown)
            &&& exit is None ==> shown == tail
            &&& exit matches Some(x) ==> shown.len() == (if tail.len() == 0 { 2 } else { tail.len() + 1 })
                && text::contains_text(shown.last(), vm::exit_text(x))
        }),
{
    let shown = vm::shown_tail(tail, exit);
    assert(tail =~= shown.take(tail.len() as int));
    if exit is Some {
        let x = exit->0;
        let head = "(ember-vz process: "@;
        let s = shown.last();
        let h = head.len() as int;
        assert(s.subrange(h, h + vm::exit_text(x).len()) =~= vm::exit_text(x));
        assert(text::occurs_at(s, vm::exit_text(x), h));
    }
}

/// The file system of a volume is the value that follows its key in a property list,
/// whatever else the list holds before and after.
pub proof fn law_filesystem_is_the_value_of_its_key(plist: Seq<char>, k: int, a: int, b: int)
    requires
        text::is_first_at(plist, "<key>FilesystemType</key>"@, k),
        text::is_first_at(plist.skip(k), "<string>"@, a),
        text::is_first_at(plist.skip(k), "</string>"@, b),
        a + 8 <= b,
    ensures
        storage::filesystem_type(plist) == Some(
            text::lowercase(text::trim(plist.subrange(k + a + 8, k + b))),
        ),
        storage::value_in_order(plist),
{
    assert(text::occurs_at(plist, "<key>FilesystemType</key>"@, k));
    assert(text::occurs_at(plist.skip(k), "<string>"@, a));
    assert(text::occurs_at(plist.skip(k), "</string>"@, b));
    text::lemma_position(plist, "<key>FilesystemType</key>"@, k);
    text::lemma_position(plist.skip(k), "<string>"@, a);
    text::lemma_position(plist.skip(k), "</string>"@, b);
    assert(plist.skip(k).subrange(a + 8, b) =~= plist.subrange(k + a + 8, k + b));
}

/// A list that has no such key names no file system.
pub proof fn law_no_key_no_filesystem(plist: Seq<char>)
    requires
        !text::contains_text(plist, "<key>FilesystemType</key>"@),
    ensures
        storage::filesystem_type(plist) is None,
{
}

/// The disk of a VM is in a directory of its own below that of the VMs, and the file
/// of an image in that of the images; so no two of them are the same file.
pub proof fn law_disks_are_apart(
    s: storage::MacosStorage,
    name: Seq<char>,
    other: Seq<char>,
)
    requires
        path_laws::plain(name),
        path_laws::plain(other),
    ensures
        paths::components(s.rootfs_text(name)) == paths::components(s.state_dir@) + seq![
            "vms"@,
            name,
            "rootfs.img"@,
        ],
        paths::components(s.image_text(name)) == paths::components(s.state_dir@) + seq![
            "images"@,
            "data"@,
            name + ".img"@,
        ],
        s.vm_text(name) == vm::vm_dir_text(s.state_dir@, name),
        s.rootfs_text(name) != s.image_text(other),
        name != other ==> s.rootfs_text(name) != s.rootfs_text(other) && s.image_text(name)
            != s.image_text(other),
{
    lemma_disk_parts(s, name);
    lemma_disk_parts(s, other);
    let base = paths::components(s.state_dir@);
    let n = base.len() as int;
    let a = paths::components(s.rootfs_text(name));
    let b = paths::components(s.rootfs_text(other));
    let c = paths::components(s.image_text(name));
    let d = paths::components(s.image_text(other));
    assert(a[n] == "vms"@ && b[n] == "vms"@ && c[n] == "images"@ && d[n] == "images"@);
    assert(a[n + 1] == name && b[n + 1] == other);
    assert(c[n + 2] == name + ".img"@ && d[n + 2] == other + ".img"@);
    reveal_strlit("vms");
    reveal_strlit("images");
    assert("vms"@.len() != "images"@.len());
    if name + ".img"@ == other + ".img"@ {
        assert(name.len() == other.len());
        assert((name + ".img"@).take(name.len() as int) =~= name);
        assert((other + ".img"@).take(other.len() as int) =~= other);
    }
}

proof fn lemma_disk_parts(s: storage::MacosStorage, name: Seq<char>)
    requires
        path_laws::plain(name),
    ensures
        paths::components(s.rootfs_text(name)) == paths::components(s.state_dir@) + seq![
            "vms"@,
            name,
            "rootfs.img"@,
        ],
        paths::components(s.image_text(name)) == paths::components(s.state_dir@) + seq![
            "images"@,
            "data"@,
            name + ".img"@,
        ],
{
    reveal_strlit("vms");
    reveal_strlit("images");
    reveal_strlit("data");
    reveal_strlit("rootfs.img");
    reveal_strlit(".img");
    reveal_strlit(".");
    reveal_strlit("..");
    assert("vms"@[0] == 'v' && "images"@[0] == 'i' && "data"@[0] == 'd' && "rootfs.img"@[0] == 'r');
    let file = name + ".img"@;
    assert forall|i: int| 0 <= i < file.len() implies #[trigger] file[i] != '/' by {
        if i < name.len() {
            assert(file[i] == name[i]);
        }
    }
    assert(file.len() > 2);
    path_laws::law_joined_name_is_last(s.state_dir@, "vms"@);
    path_laws::law_joined_name_is_last(s.vms_text(), name);
    path_laws::law_joined_name_is_last(s.vm_text(name), "rootfs.img"@);
    path_laws::law_joined_name_is_last(s.state_dir@, "images"@);
    path_laws::law_joined_name_is_last(paths::joined(s.state_dir@, "images"@), "data"@);
    path_laws::law_joined_name_is_last(s.images_text(), file);
    let base = paths::components(s.state_dir@);
    assert(base.push("vms"@).push(name).push("rootfs.img"@) =~= base + seq!["vms"@, name, "rootfs.img"@]);
    assert(base.push("images"@).push("data"@).push(file) =~= base + seq!["images"@, "data"@, file]);
}

/// Two failed starts of one VM leave their logs under different names, unless they
/// are of the same instant.
pub proof fn law_preserved_logs_are_apart(
    name: Seq<char>,
    secs: nat,
    nanos: nat,
    other_secs: nat,
    other_nanos: nat,
)
    requires
        nanos < 1_000_000_000,
        other_nanos < 1_000_000_000,
        vm::preserved_name(name, secs, nanos) == vm::preserved_name(name, other_secs, other_nanos),
    ensures
        secs == other_secs,
        nanos == other_nanos,
{
    reveal_strlit("-");
    reveal_strlit(".log");
    let a = vm::preserved_name(name, secs, nanos);
    let b = vm::preserved_name(name, other_secs, other_nanos);
    let s = text::dec(secs);
    let t = text::dec(other_secs);
    let x = text::dec_fixed(nanos, 9);
    let y = text::dec_fixed(other_nanos, 9);
    text::lemma_dec_fixed(nanos, 9);
    text::lemma_dec_fixed(other_nanos, 9);
    let n = name.len() as int;
    assert(a =~= name.push('-') + s + x.insert(0, '-') + ".log"@);
    assert(b =~= name.push('-') + t + y.insert(0, '-') + ".log"@);
    assert(s.len() == t.len());
    assert(a.subrange(n + 1, n + 1 + s.len()) =~= s);
    assert(b.subrange(n + 1, n + 1 + t.len()) =~= t);
    assert(a.subrange(n + 2 + s.len(), n + 11 + s.len()) =~= x);
    assert(b.subrange(n + 2 + t.len(), n + 11 + t.len()) =~= y);
    text::lemma_value_of_dec(secs);
    text::lemma_value_of_dec(other_secs);
    assert(vstd::arithmetic::power::pow(10, 9) == 1_000_000_000) by {
        reveal_with_fuel(vstd::arithmetic::power::pow, 10);
    }
}

/// The key is given to the numbers of the user as the list of users has them; where
/// it has none, to the owner of the home directory; and where that is not known
/// either, to the first user of a usual system.
pub proof fn law_key_owner_is_looked_up(stat: Seq<u8>, passwd: Seq<u8>)
    ensures
        ({
            let listed = storage::passwd_ids(text::lines(text::utf8_lossy(passwd)), "ubuntu"@);
            let owner = storage::owner_ids(text::lines(text::utf8_lossy(stat)));
            let fallback = if owner is Some {
                owner->0
            } else {
                (1000u32, 1000u32)
            };
            &&& listed matches Some(ids) ==> storage::ubuntu_ids(stat, Some(passwd)) == ids
            &&& listed is None ==> storage::ubuntu_ids(stat, Some(passwd)) == fallback
            &&& storage::ubuntu_ids(stat, None) == fallback
        }),
{
}

/// The memory of the host is the number that the command printed on its line, and
/// unknown where the command failed or printed anything else.
pub proof fn law_printed_memory(n: u64, stdout: Seq<u8>, out: CommandOutput)
    requires
        vstd::utf8::valid_utf8(stdout),
        vstd::utf8::decode_utf8(stdout) == text::dec(n as nat).push('\n'),
    ensures
        platform::printed_size(stdout) == Ok::<u64, Seq<char>>(n),
        !out.success() ==> platform::memory_size(Outcome::Exited(out)) is Err,
        out.success() ==> platform::memory_size(Outcome::Exited(out)) == platform::printed_size(
            out.stdout@,
        ),
{
    let d = text::dec(n as nat);
    text_laws::lemma_numbers_are_digits(n as nat, ' ');
    assert(!text::is_white(d[0]));
    assert(!text::is_white(d[d.len() - 1]));
    let s = d.push('\n');
    assert(s[0] == d[0]);
    assert(s.drop_last() =~= d);
    reveal_with_fuel(text::trim_end, 2);
    assert(text::trim_start(s) == s);
    assert(text::trim(s) == d);
    text::lemma_parse_of_dec(n as nat, u64::MAX as nat);
}

/// A guest on the shared network is told its own address, the router of that network
/// and a mask of 24 bits.
pub proof fn law_guest_network(n: NetworkInfo, guest_ip: Seq<char>)
    requires
        network::is_guest_network(n, guest_ip),
    ensures
        n.guest_ip@ == guest_ip,
        n.host_ip@ == "192.168.64.1"@,
        n.netmask@ == "255.255.255.0"@,
        n.tap_device@.len() == 0,
        n.guest_mac is None,
        n.wan_iface is None,
{
}

/// A VM gets its address from its own subnet where it has one, else from that of the
/// installation; an installation without a name shares the whole network.
pub proof fn law_subnet_of_a_vm(vm: VmMetadata, config: GlobalConfig)
    ensures
        vm.subnet matches Some(s) ==> network::subnet_text(vm, config) == s@,
        vm.subnet is None && config.instance_id@.len() > 0 ==> network::subnet_text(vm, config)
            == config.ip_subnet@,
        vm.subnet is None && config.instance_id@.len() == 0 ==> network::subnet_text(vm, config)
            == "192.168.64.0/24"@,
{
}

/// Every program is in the package of its own name, but for GNU tar.
pub proof fn law_packages(name: Seq<char>)
    ensures
        platform::package("gtar"@) == "gnu-tar"@,
        name != "gtar"@ ==> platform::package(name) == name,
{
}

/// An installation without a name hands out blocks of four addresses, and one with a
/// name single addresses; the guest gets the address that was recorded for it.
pub proof fn law_guests_are_recorded(
    before: Seq<ip::Row>,
    after: Seq<ip::Row>,
    vm: VmMetadata,
    config: GlobalConfig,
    exclude: Set<u32>,
    r: Result<NetworkInfo, Error>,
)
    requires
        network::set_up(before, after, vm, config, exclude, r),
    ensures
        r is Err ==> after == before,
        r matches Ok(n) ==> ip::cidr(network::subnet_text(vm, config)) is Ok && after.len()
            == before.len() + 1 && after.drop_last() == before && after.last().vm_name == vm.name@ && {
            let base = ip::cidr(network::subnet_text(vm, config))->Ok_0.0;
            let slot = after.last().block_index;
            if config.instance_id@.len() == 0 {
                n.guest_ip@ == ip::ip_text((base + 4 * slot + 2) as u32)
                    && after.last().single_address == 0
            } else {
                n.guest_ip@ == ip::ip_text((base + slot) as u32) && after.last().single_address == 1
            }
        },
{
    if r is Ok {
        assert(after.drop_last() =~= before);
    }
}

/// A helper has half a minute to report, ten seconds to end once it is asked to, and
/// five to be gone once it is killed.
pub proof fn law_waits()
    ensures
        vm::READY_TIMEOUT_SECS == 30,
        vm::GRACEFUL_SHUTDOWN_TIMEOUT_MS == 10 * 1000,
        vm::FORCE_KILL_TIMEOUT_MS == 5 * 1000,
        100 * vm::POLL_INTERVAL_MS <= vm::FORCE_KILL_TIMEOUT_MS,
        vm::LOG_TAIL_LINES == 10,
{
}

} // verus!
