//! What commands do on the host.
//!
//! Each tool is read as its manual has it: from how it is called follows what is done,
//! and to what. A command that a tool does not take does nothing known.
use crate::command::CmdView;
use vstd::prelude::*;

verus! {

/// What a command does.
pub enum Deed {
    /// A mapped device is made with a table.
    MapDevice { name: Seq<char>, table: Seq<char> },
    /// A mapped device is taken down.
    UnmapDevice { name: Seq<char> },
    /// A mapped device is sent a message.
    Tell { name: Seq<char>, text: Seq<char> },
    /// A mapped device gets a table that counts once it is resumed.
    Retable { name: Seq<char>, table: Seq<char> },
    /// A mapped device is suspended.
    Suspend { name: Seq<char> },
    /// A mapped device is resumed.
    Resume { name: Seq<char> },
    /// The status of a mapped device is shown.
    Status { name: Seq<char> },
    /// A mapped device is looked for.
    Look { name: Seq<char> },
    /// The kinds of mapped devices are shown.
    Targets,
    /// The mapped devices are shown.
    Mapped,
    /// A file gets a loop device, which is shown.
    Attach { file: Seq<char> },
    /// A loop device is given up.
    Detach { device: Seq<char> },
    /// A loop device takes the length of its file.
    Refresh { device: Seq<char> },
    /// The loop devices of a file are shown.
    FindLoop { file: Seq<char> },
    /// A device gets an address.
    Address { address: Seq<char>, device: Seq<char> },
    /// A device is brought up.
    Raise { device: Seq<char> },
    /// A device is deleted.
    DropDevice { device: Seq<char> },
    /// The devices of a kind are shown, one in a line.
    Devices { kind: Seq<char> },
    /// A tree is copied with its attributes, without copying its blocks.
    Share { source: Seq<char>, target: Seq<char> },
    /// A file is copied without copying its blocks.
    CloneFile { source: Seq<char>, target: Seq<char> },
    /// What is in a directory under a name is packed into an archive.
    Pack { archive: Seq<char>, dir: Seq<char>, name: Seq<char> },
    /// An archive is unpacked in a directory.
    Unpack { archive: Seq<char>, dir: Seq<char> },
    /// A file gets a length, in bytes.
    Lengthen { length: Seq<char>, file: Seq<char> },
    /// A file system is checked though it seems clean, and mended where that is safe.
    Preen { device: Seq<char> },
    /// A file system is checked though it seems clean, and mended.
    Mend { device: Seq<char> },
    /// A file system grows to fill its device.
    Fill { device: Seq<char> },
    /// A device is mounted on a directory.
    Mount { device: Seq<char>, dir: Seq<char> },
    /// What is mounted on a directory is unmounted as soon as it is not busy.
    Detached { dir: Seq<char> },
    /// The size of a device, in bytes, is shown.
    Measure { device: Seq<char> },
    /// A module of the kernel is loaded.
    Module { module: Seq<char> },
    /// The metadata of a pool is checked.
    CheckMetadata { device: Seq<char> },
    /// The metadata of a pool is shown.
    ShowMetadata { device: Seq<char> },
    /// The metadata of a pool is mended into another device.
    MendMetadata { input: Seq<char>, output: Seq<char> },
    /// A snapshot is taken.
    Snap { name: Seq<char> },
    /// A snapshot is looked for; its name is shown.
    LookSnap { name: Seq<char> },
    /// A dataset goes back to a snapshot, and later snapshots go.
    RollBack { name: Seq<char> },
    /// The snapshots of a dataset and of those below it are shown, with exact numbers.
    Snaps { name: Seq<char> },
    /// A dataset or snapshot is destroyed.
    DestroyOne { name: Seq<char> },
    /// A dataset is destroyed with what is below it.
    DestroyTree { name: Seq<char> },
    /// A dataset is destroyed with what is below it and what was cloned from that.
    DestroyClones { name: Seq<char> },
    /// A pool is destroyed though it is in use.
    DestroyPool { name: Seq<char> },
    /// A parameter of the kernel is set, as in name=value.
    SetParameter { setting: Seq<char> },
    /// The value of a parameter of the kernel is shown.
    ShowParameter { name: Seq<char> },
    /// The route to an address is shown.
    ShowRoute { address: Seq<char> },
    /// A disk image is asked something.
    Ask { request: Seq<char>, image: Seq<char> },
    /// A disk image is changed as a script says.
    Edit { script: Seq<char>, image: Seq<char> },
    /// The volume of a path is shown as a property list.
    ShowVolume { path: Seq<char> },
}

/// What `dmsetup` does.
pub open spec fn dmsetup(c: CmdView) -> Option<Deed> {
    let a = c.args;
    if c.program != "dmsetup"@ {
        None
    } else if a.len() == 4 && a[0] == "create"@ && a[2] == "--table"@ {
        Some(Deed::MapDevice { name: a[1], table: a[3] })
    } else if a.len() == 2 && a[0] == "remove"@ {
        Some(Deed::UnmapDevice { name: a[1] })
    } else if a.len() == 4 && a[0] == "message"@ && a[2] == "0"@ {
        Some(Deed::Tell { name: a[1], text: a[3] })
    } else if a.len() == 4 && a[0] == "load"@ && a[2] == "--table"@ {
        Some(Deed::Retable { name: a[1], table: a[3] })
    } else if a.len() == 2 && a[0] == "suspend"@ {
        Some(Deed::Suspend { name: a[1] })
    } else if a.len() == 2 && a[0] == "resume"@ {
        Some(Deed::Resume { name: a[1] })
    } else if a.len() == 2 && a[0] == "status"@ {
        Some(Deed::Status { name: a[1] })
    } else if a.len() == 3 && a[0] == "info"@ && a[1] == "--noheadings"@ {
        Some(Deed::Look { name: a[2] })
    } else if a.len() == 1 && a[0] == "targets"@ {
        Some(Deed::Targets)
    } else if a.len() == 1 && a[0] == "ls"@ {
        Some(Deed::Mapped)
    } else {
        None
    }
}

/// The words that `dmsetup` knows differ.
pub proof fn lemma_dmsetup()
    ensures
        "create"@ != "--table"@,
        "create"@ != "remove"@,
        "create"@ != "message"@,
        "create"@ != "0"@,
        "create"@ != "load"@,
        "create"@ != "suspend"@,
        "create"@ != "resume"@,
        "create"@ != "status"@,
        "create"@ != "info"@,
        "create"@ != "--noheadings"@,
        "create"@ != "targets"@,
        "create"@ != "ls"@,
        "--table"@ != "remove"@,
        "--table"@ != "message"@,
        "--table"@ != "0"@,
        "--table"@ != "load"@,
        "--table"@ != "suspend"@,
        "--table"@ != "resume"@,
        "--table"@ != "status"@,
        "--table"@ != "info"@,
        "--table"@ != "--noheadings"@,
        "--table"@ != "targets"@,
        "--table"@ != "ls"@,
        "remove"@ != "message"@,
        "remove"@ != "0"@,
        "remove"@ != "load"@,
        "remove"@ != "suspend"@,
        "remove"@ != "resume"@,
        "remove"@ != "status"@,
        "remove"@ != "info"@,
        "remove"@ != "--noheadings"@,
        "remove"@ != "targets"@,
        "remove"@ != "ls"@,
        "message"@ != "0"@,
        "message"@ != "load"@,
        "message"@ != "suspend"@,
        "message"@ != "resume"@,
        "message"@ != "status"@,
        "message"@ != "info"@,
        "message"@ != "--noheadings"@,
        "message"@ != "targets"@,
        "message"@ != "ls"@,
        "0"@ != "load"@,
        "0"@ != "suspend"@,
        "0"@ != "resume"@,
        "0"@ != "status"@,
        "0"@ != "info"@,
        "0"@ != "--noheadings"@,
        "0"@ != "targets"@,
        "0"@ != "ls"@,
        "load"@ != "suspend"@,
        "load"@ != "resume"@,
        "load"@ != "status"@,
        "load"@ != "info"@,
        "load"@ != "--noheadings"@,
        "load"@ != "targets"@,
        "load"@ != "ls"@,
        "suspend"@ != "resume"@,
        "suspend"@ != "status"@,
        "suspend"@ != "info"@,
        "suspend"@ != "--noheadings"@,
        "suspend"@ != "targets"@,
        "suspend"@ != "ls"@,
        "resume"@ != "status"@,
        "resume"@ != "info"@,
        "resume"@ != "--noheadings"@,
        "resume"@ != "targets"@,
        "resume"@ != "ls"@,
        "status"@ != "info"@,
        "status"@ != "--noheadings"@,
        "status"@ != "targets"@,
        "status"@ != "ls"@,
        "info"@ != "--noheadings"@,
        "info"@ != "targets"@,
        "info"@ != "ls"@,
        "--noheadings"@ != "targets"@,
        "--noheadings"@ != "ls"@,
        "targets"@ != "ls"@,
{
    reveal_strlit("create");
    reveal_strlit("--table");
    reveal_strlit("remove");
    reveal_strlit("message");
    reveal_strlit("0");
    reveal_strlit("load");
    reveal_strlit("suspend");
    reveal_strlit("resume");
    reveal_strlit("status");
    reveal_strlit("info");
    reveal_strlit("--noheadings");
    reveal_strlit("targets");
    reveal_strlit("ls");
    assert("create"@.len() == 6 && "--table"@.len() == 7 && "remove"@.len() == 6);
    assert("message"@.len() == 7 && "0"@.len() == 1 && "load"@.len() == 4);
    assert("suspend"@.len() == 7 && "resume"@.len() == 6 && "status"@.len() == 6);
    assert("info"@.len() == 4 && "--noheadings"@.len() == 12 && "targets"@.len() == 7);
    assert("ls"@.len() == 2 && "create"@[2] == 'e' && "remove"@[2] == 'm');
    assert("resume"@[2] == 's' && "status"@[2] == 'a' && "--table"@[0] == '-');
    assert("message"@[0] == 'm' && "suspend"@[0] == 's' && "targets"@[0] == 't');
    assert("load"@[0] == 'l' && "info"@[0] == 'i');
}

/// What `losetup` does.
pub open spec fn losetup(c: CmdView) -> Option<Deed> {
    let a = c.args;
    if c.program != "losetup"@ {
        None
    } else if a.len() == 3 && a[0] == "-f"@ && a[1] == "--show"@ {
        Some(Deed::Attach { file: a[2] })
    } else if a.len() == 2 && a[0] == "-d"@ {
        Some(Deed::Detach { device: a[1] })
    } else if a.len() == 2 && a[0] == "-c"@ {
        Some(Deed::Refresh { device: a[1] })
    } else if a.len() == 2 && a[0] == "-j"@ {
        Some(Deed::FindLoop { file: a[1] })
    } else {
        None
    }
}

/// The words that `losetup` knows differ.
pub proof fn lemma_losetup()
    ensures
        "-f"@ != "--show"@,
        "-f"@ != "-d"@,
        "-f"@ != "-c"@,
        "-f"@ != "-j"@,
        "--show"@ != "-d"@,
        "--show"@ != "-c"@,
        "--show"@ != "-j"@,
        "-d"@ != "-c"@,
        "-d"@ != "-j"@,
        "-c"@ != "-j"@,
{
    reveal_strlit("-f");
    reveal_strlit("--show");
    reveal_strlit("-d");
    reveal_strlit("-c");
    reveal_strlit("-j");
    assert("-f"@.len() == 2 && "--show"@.len() == 6 && "-d"@.len() == 2 && "-c"@.len() == 2);
    assert("-j"@.len() == 2 && "-f"@[1] == 'f' && "-d"@[1] == 'd' && "-c"@[1] == 'c');
    assert("-j"@[1] == 'j');
}

/// What `ip` does.
pub open spec fn ip(c: CmdView) -> Option<Deed> {
    let a = c.args;
    if c.program != "ip"@ {
        None
    } else if a.len() == 5 && a[0] == "addr"@ && a[1] == "add"@ && a[3] == "dev"@ {
        Some(Deed::Address { address: a[2], device: a[4] })
    } else if a.len() == 4 && a[0] == "link"@ && a[1] == "set"@ && a[3] == "up"@ {
        Some(Deed::Raise { device: a[2] })
    } else if a.len() == 3 && a[0] == "link"@ && a[1] == "delete"@ {
        Some(Deed::DropDevice { device: a[2] })
    } else if a.len() == 5 && a[0] == "-o"@ && a[1] == "link"@ && a[2] == "show"@ && a[3] == "type"@ {
        Some(Deed::Devices { kind: a[4] })
    } else {
        None
    }
}

/// The words that `ip` knows differ.
pub proof fn lemma_ip()
    ensures
        "addr"@ != "add"@,
        "addr"@ != "dev"@,
        "addr"@ != "link"@,
        "addr"@ != "set"@,
        "addr"@ != "up"@,
        "addr"@ != "delete"@,
        "addr"@ != "-o"@,
        "addr"@ != "show"@,
        "addr"@ != "type"@,
        "add"@ != "dev"@,
        "add"@ != "link"@,
        "add"@ != "set"@,
        "add"@ != "up"@,
        "add"@ != "delete"@,
        "add"@ != "-o"@,
        "add"@ != "show"@,
        "add"@ != "type"@,
        "dev"@ != "link"@,
        "dev"@ != "set"@,
        "dev"@ != "up"@,
        "dev"@ != "delete"@,
        "dev"@ != "-o"@,
        "dev"@ != "show"@,
        "dev"@ != "type"@,
        "link"@ != "set"@,
        "link"@ != "up"@,
        "link"@ != "delete"@,
        "link"@ != "-o"@,
        "link"@ != "show"@,
        "link"@ != "type"@,
        "set"@ != "up"@,
        "set"@ != "delete"@,
        "set"@ != "-o"@,
        "set"@ != "show"@,
        "set"@ != "type"@,
        "up"@ != "delete"@,
        "up"@ != "-o"@,
        "up"@ != "show"@,
        "up"@ != "type"@,
        "delete"@ != "-o"@,
        "delete"@ != "show"@,
        "delete"@ != "type"@,
        "-o"@ != "show"@,
        "-o"@ != "type"@,
        "show"@ != "type"@,
{
    reveal_strlit("addr");
    reveal_strlit("add");
    reveal_strlit("dev");
    reveal_strlit("link");
    reveal_strlit("set");
    reveal_strlit("up");
    reveal_strlit("delete");
    reveal_strlit("-o");
    reveal_strlit("show");
    reveal_strlit("type");
    assert("addr"@.len() == 4 && "add"@.len() == 3 && "dev"@.len() == 3 && "link"@.len() == 4);
    assert("set"@.len() == 3 && "up"@.len() == 2 && "delete"@.len() == 6 && "-o"@.len() == 2);
    assert("show"@.len() == 4 && "type"@.len() == 4 && "addr"@[0] == 'a' && "link"@[0] == 'l');
    assert("show"@[0] == 's' && "type"@[0] == 't' && "add"@[0] == 'a' && "dev"@[0] == 'd');
    assert("set"@[0] == 's' && "up"@[0] == 'u' && "-o"@[0] == '-');
}

/// What `cp` does.
pub open spec fn cp(c: CmdView) -> Option<Deed> {
    let a = c.args;
    if c.program != "cp"@ {
        None
    } else if a.len() == 4 && a[0] == "--reflink=always"@ && a[1] == "-a"@ {
        Some(Deed::Share { source: a[2], target: a[3] })
    } else if a.len() == 3 && a[0] == "-c"@ {
        Some(Deed::CloneFile { source: a[1], target: a[2] })
    } else {
        None
    }
}

/// The words that `cp` knows differ.
pub proof fn lemma_cp()
    ensures
        "--reflink=always"@ != "-a"@,
        "--reflink=always"@ != "-c"@,
        "-a"@ != "-c"@,
{
    reveal_strlit("--reflink=always");
    reveal_strlit("-a");
    reveal_strlit("-c");
    assert("--reflink=always"@.len() == 16 && "-a"@.len() == 2 && "-c"@.len() == 2);
    assert("-a"@[1] == 'a' && "-c"@[1] == 'c');
}

/// What `tar` does.
pub open spec fn tar(c: CmdView) -> Option<Deed> {
    let a = c.args;
    if c.program != "tar"@ {
        None
    } else if a.len() == 5 && a[0] == "-czf"@ && a[2] == "-C"@ {
        Some(Deed::Pack { archive: a[1], dir: a[3], name: a[4] })
    } else if a.len() == 4 && a[0] == "-xzf"@ && a[2] == "-C"@ {
        Some(Deed::Unpack { archive: a[1], dir: a[3] })
    } else {
        None
    }
}

/// The words that `tar` knows differ.
pub proof fn lemma_tar()
    ensures
        "-czf"@ != "-C"@,
        "-czf"@ != "-xzf"@,
        "-C"@ != "-xzf"@,
{
    reveal_strlit("-czf");
    reveal_strlit("-C");
    reveal_strlit("-xzf");
    assert("-czf"@.len() == 4 && "-C"@.len() == 2 && "-xzf"@.len() == 4 && "-czf"@[1] == 'c');
    assert("-xzf"@[1] == 'x');
}

/// What `truncate` does.
pub open spec fn truncate(c: CmdView) -> Option<Deed> {
    let a = c.args;
    if c.program != "truncate"@ {
        None
    } else if a.len() == 3 && a[0] == "-s"@ {
        Some(Deed::Lengthen { length: a[1], file: a[2] })
    } else {
        None
    }
}

/// What `fsck` does.
pub open spec fn fsck(c: CmdView) -> Option<Deed> {
    let a = c.args;
    if a.len() == 3 && a[0] == "-f"@ && a[1] == "-p"@ {
        Some(Deed::Preen { device: a[2] })
    } else if a.len() == 3 && a[0] == "-f"@ && a[1] == "-y"@ {
        Some(Deed::Mend { device: a[2] })
    } else {
        None
    }
}

/// The words that `fsck` knows differ.
pub proof fn lemma_fsck()
    ensures
        "-f"@ != "-p"@,
        "-f"@ != "-y"@,
        "-p"@ != "-y"@,
{
    reveal_strlit("-f");
    reveal_strlit("-p");
    reveal_strlit("-y");
    assert("-f"@.len() == 2 && "-p"@.len() == 2 && "-y"@.len() == 2 && "-f"@[1] == 'f');
    assert("-p"@[1] == 'p' && "-y"@[1] == 'y');
}

/// What `resize2fs` does.
pub open spec fn resize2fs(c: CmdView) -> Option<Deed> {
    let a = c.args;
    if a.len() == 1 {
        Some(Deed::Fill { device: a[0] })
    } else {
        None
    }
}

/// What `mount` does.
pub open spec fn mount(c: CmdView) -> Option<Deed> {
    let a = c.args;
    if c.program != "mount"@ {
        None
    } else if a.len() == 2 {
        Some(Deed::Mount { device: a[0], dir: a[1] })
    } else {
        None
    }
}

/// What `umount` does.
pub open spec fn umount(c: CmdView) -> Option<Deed> {
    let a = c.args;
    if c.program != "umount"@ {
        None
    } else if a.len() == 2 && a[0] == "-l"@ {
        Some(Deed::Detached { dir: a[1] })
    } else {
        None
    }
}

/// What `blockdev` does.
pub open spec fn blockdev(c: CmdView) -> Option<Deed> {
    let a = c.args;
    if c.program != "blockdev"@ {
        None
    } else if a.len() == 2 && a[0] == "--getsize64"@ {
        Some(Deed::Measure { device: a[1] })
    } else {
        None
    }
}

/// What `modprobe` does.
pub open spec fn modprobe(c: CmdView) -> Option<Deed> {
    let a = c.args;
    if c.program != "modprobe"@ {
        None
    } else if a.len() == 1 {
        Some(Deed::Module { module: a[0] })
    } else {
        None
    }
}

/// What `thin_check` does.
pub open spec fn thin_check(c: CmdView) -> Option<Deed> {
    let a = c.args;
    if c.program != "thin_check"@ {
        None
    } else if a.len() == 1 {
        Some(Deed::CheckMetadata { device: a[0] })
    } else {
        None
    }
}

/// What `thin_dump` does.
pub open spec fn thin_dump(c: CmdView) -> Option<Deed> {
    let a = c.args;
    if c.program != "thin_dump"@ {
        None
    } else if a.len() == 1 {
        Some(Deed::ShowMetadata { device: a[0] })
    } else {
        None
    }
}

/// What `thin_repair` does.
pub open spec fn thin_repair(c: CmdView) -> Option<Deed> {
    let a = c.args;
    if c.program != "thin_repair"@ {
        None
    } else if a.len() == 4 && a[0] == "-i"@ && a[2] == "-o"@ {
        Some(Deed::MendMetadata { input: a[1], output: a[3] })
    } else {
        None
    }
}

/// The words that `thin_repair` knows differ.
pub proof fn lemma_thin_repair()
    ensures
        "-i"@ != "-o"@,
{
    reveal_strlit("-i");
    reveal_strlit("-o");
    assert("-i"@.len() == 2 && "-o"@.len() == 2 && "-i"@[1] == 'i' && "-o"@[1] == 'o');
}

/// What `zfs` does.
pub open spec fn zfs(c: CmdView) -> Option<Deed> {
    let a = c.args;
    if c.program != "zfs"@ {
        None
    } else if a.len() == 2 && a[0] == "snapshot"@ {
        Some(Deed::Snap { name: a[1] })
    } else if a.len() == 7 && a[0] == "list"@ && a[1] == "-H"@ && a[2] == "-t"@ && a[3] == "snapshot"@ && a[4] == "-o"@ && a[5] == "name"@ {
        Some(Deed::LookSnap { name: a[6] })
    } else if a.len() == 3 && a[0] == "rollback"@ && a[1] == "-r"@ {
        Some(Deed::RollBack { name: a[2] })
    } else if a.len() == 8 && a[0] == "list"@ && a[1] == "-Hp"@ && a[2] == "-r"@ && a[3] == "-t"@ && a[4] == "snapshot"@ && a[5] == "-o"@ && a[6] == "name,used,refer,creation"@ {
        Some(Deed::Snaps { name: a[7] })
    } else if a.len() == 2 && a[0] == "destroy"@ {
        Some(Deed::DestroyOne { name: a[1] })
    } else if a.len() == 3 && a[0] == "destroy"@ && a[1] == "-r"@ {
        Some(Deed::DestroyTree { name: a[2] })
    } else if a.len() == 3 && a[0] == "destroy"@ && a[1] == "-R"@ {
        Some(Deed::DestroyClones { name: a[2] })
    } else {
        None
    }
}

/// The words that `zfs` knows differ.
pub proof fn lemma_zfs()
    ensures
        "snapshot"@ != "list"@,
        "snapshot"@ != "-H"@,
        "snapshot"@ != "-t"@,
        "snapshot"@ != "-o"@,
        "snapshot"@ != "name"@,
        "snapshot"@ != "rollback"@,
        "snapshot"@ != "-r"@,
        "snapshot"@ != "-Hp"@,
        "snapshot"@ != "name,used,refer,creation"@,
        "snapshot"@ != "destroy"@,
        "snapshot"@ != "-R"@,
        "list"@ != "-H"@,
        "list"@ != "-t"@,
        "list"@ != "-o"@,
        "list"@ != "name"@,
        "list"@ != "rollback"@,
        "list"@ != "-r"@,
        "list"@ != "-Hp"@,
        "list"@ != "name,used,refer,creation"@,
        "list"@ != "destroy"@,
        "list"@ != "-R"@,
        "-H"@ != "-t"@,
        "-H"@ != "-o"@,
        "-H"@ != "name"@,
        "-H"@ != "rollback"@,
        "-H"@ != "-r"@,
        "-H"@ != "-Hp"@,
        "-H"@ != "name,used,refer,creation"@,
        "-H"@ != "destroy"@,
        "-H"@ != "-R"@,
        "-t"@ != "-o"@,
        "-t"@ != "name"@,
        "-t"@ != "rollback"@,
        "-t"@ != "-r"@,
        "-t"@ != "-Hp"@,
        "-t"@ != "name,used,refer,creation"@,
        "-t"@ != "destroy"@,
        "-t"@ != "-R"@,
        "-o"@ != "name"@,
        "-o"@ != "rollback"@,
        "-o"@ != "-r"@,
        "-o"@ != "-Hp"@,
        "-o"@ != "name,used,refer,creation"@,
        "-o"@ != "destroy"@,
        "-o"@ != "-R"@,
        "name"@ != "rollback"@,
        "name"@ != "-r"@,
        "name"@ != "-Hp"@,
        "name"@ != "name,used,refer,creation"@,
        "name"@ != "destroy"@,
        "name"@ != "-R"@,
        "rollback"@ != "-r"@,
        "rollback"@ != "-Hp"@,
        "rollback"@ != "name,used,refer,creation"@,
        "rollback"@ != "destroy"@,
        "rollback"@ != "-R"@,
        "-r"@ != "-Hp"@,
        "-r"@ != "name,used,refer,creation"@,
        "-r"@ != "destroy"@,
        "-r"@ != "-R"@,
        "-Hp"@ != "name,used,refer,creation"@,
        "-Hp"@ != "destroy"@,
        "-Hp"@ != "-R"@,
        "name,used,refer,creation"@ != "destroy"@,
        "name,used,refer,creation"@ != "-R"@,
        "destroy"@ != "-R"@,
{
    reveal_strlit("snapshot");
    reveal_strlit("list");
    reveal_strlit("-H");
    reveal_strlit("-t");
    reveal_strlit("-o");
    reveal_strlit("name");
    reveal_strlit("rollback");
    reveal_strlit("-r");
    reveal_strlit("-Hp");
    reveal_strlit("name,used,refer,creation");
    reveal_strlit("destroy");
    reveal_strlit("-R");
    assert("snapshot"@.len() == 8 && "list"@.len() == 4 && "-H"@.len() == 2 && "-t"@.len() == 2);
    assert("-o"@.len() == 2 && "name"@.len() == 4 && "rollback"@.len() == 8 && "-r"@.len() == 2);
    assert("-Hp"@.len() == 3 && "name,used,refer,creation"@.len() == 24);
    assert("destroy"@.len() == 7 && "-R"@.len() == 2 && "snapshot"@[0] == 's');
    assert("rollback"@[0] == 'r' && "list"@[0] == 'l' && "name"@[0] == 'n' && "-H"@[1] == 'H');
    assert("-t"@[1] == 't' && "-o"@[1] == 'o' && "-r"@[1] == 'r' && "-R"@[1] == 'R');
}

/// What `zpool` does.
pub open spec fn zpool(c: CmdView) -> Option<Deed> {
    let a = c.args;
    if c.program != "zpool"@ {
        None
    } else if a.len() == 3 && a[0] == "destroy"@ && a[1] == "-f"@ {
        Some(Deed::DestroyPool { name: a[2] })
    } else {
        None
    }
}

/// The words that `zpool` knows differ.
pub proof fn lemma_zpool()
    ensures
        "destroy"@ != "-f"@,
{
    reveal_strlit("destroy");
    reveal_strlit("-f");
    assert("destroy"@.len() == 7 && "-f"@.len() == 2);
}

/// What `sysctl` does.
pub open spec fn sysctl(c: CmdView) -> Option<Deed> {
    let a = c.args;
    if c.program != "sysctl"@ {
        None
    } else if a.len() == 2 && a[0] == "-w"@ {
        Some(Deed::SetParameter { setting: a[1] })
    } else if a.len() == 2 && a[0] == "-n"@ {
        Some(Deed::ShowParameter { name: a[1] })
    } else {
        None
    }
}

/// The words that `sysctl` knows differ.
pub proof fn lemma_sysctl()
    ensures
        "-w"@ != "-n"@,
{
    reveal_strlit("-w");
    reveal_strlit("-n");
    assert("-w"@.len() == 2 && "-n"@.len() == 2 && "-w"@[1] == 'w' && "-n"@[1] == 'n');
}

/// What `route` does.
pub open spec fn route(c: CmdView) -> Option<Deed> {
    let a = c.args;
    if c.program != "route"@ {
        None
    } else if a.len() == 2 && a[0] == "get"@ {
        Some(Deed::ShowRoute { address: a[1] })
    } else {
        None
    }
}

/// What `debugfs` does.
pub open spec fn debugfs(c: CmdView) -> Option<Deed> {
    let a = c.args;
    if a.len() == 3 && a[0] == "-R"@ {
        Some(Deed::Ask { request: a[1], image: a[2] })
    } else if a.len() == 4 && a[0] == "-w"@ && a[1] == "-f"@ {
        Some(Deed::Edit { script: a[2], image: a[3] })
    } else {
        None
    }
}

/// The words that `debugfs` knows differ.
pub proof fn lemma_debugfs()
    ensures
        "-R"@ != "-w"@,
        "-R"@ != "-f"@,
        "-w"@ != "-f"@,
{
    reveal_strlit("-R");
    reveal_strlit("-w");
    reveal_strlit("-f");
    assert("-R"@.len() == 2 && "-w"@.len() == 2 && "-f"@.len() == 2 && "-R"@[1] == 'R');
    assert("-w"@[1] == 'w' && "-f"@[1] == 'f');
}

/// What `diskutil` does.
pub open spec fn diskutil(c: CmdView) -> Option<Deed> {
    let a = c.args;
    if c.program != "diskutil"@ {
        None
    } else if a.len() == 3 && a[0] == "info"@ && a[1] == "-plist"@ {
        Some(Deed::ShowVolume { path: a[2] })
    } else {
        None
    }
}

/// The words that `diskutil` knows differ.
pub proof fn lemma_diskutil()
    ensures
        "info"@ != "-plist"@,
{
    reveal_strlit("info");
    reveal_strlit("-plist");
    assert("info"@.len() == 4 && "-plist"@.len() == 6);
}

/// Whether `dd` copies the bytes of one file or device to another.
pub open spec fn copies_bytes(c: CmdView, source: Seq<char>, target: Seq<char>) -> bool {
    c.program == "dd"@ && c.args.len() > 2 && c.args[0] == "if="@ + source && c.args[1] == "of="@
        + target
}

} // verus!
