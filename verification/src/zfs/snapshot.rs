//! Snapshots.
use crate::command;
use crate::command::Cmd;
use crate::deeds;
use crate::deeds::Deed;
use crate::error;
use crate::error::Error;
use crate::text;
use crate::zfs;
use vstd::prelude::*;

verus! {

/// What a listing says of a snapshot.
#[derive(Debug, PartialEq, Eq)]
pub struct SnapshotInfo {
    /// Full name, with the dataset.
    pub name: String,
    /// What follows the last `@`.
    pub short_name: String,
    /// Bytes that only this snapshot uses.
    pub used: u64,
    /// Bytes that this snapshot refers to.
    pub referenced: u64,
    /// When it was taken, in seconds.
    pub creation: u64,
}

/// What a [`SnapshotInfo`] says.
pub struct Info {
    pub name: Seq<char>,
    pub short_name: Seq<char>,
    pub used: u64,
    pub referenced: u64,
    pub creation: u64,
}

impl View for SnapshotInfo {
    type V = Info;

    open spec fn view(&self) -> Info {
        Info {
            name: self.name@,
            short_name: self.short_name@,
            used: self.used,
            referenced: self.referenced,
            creation: self.creation,
        }
    }
}

pub open spec fn infos(v: Seq<SnapshotInfo>) -> Seq<Info> {
    Seq::new(v.len(), |i: int| v[i]@)
}

/// Full name of a snapshot.
pub open spec fn snapshot_text(dataset: Seq<char>, name: Seq<char>) -> Seq<char> {
    dataset + "@"@ + name
}

/// Full name of a snapshot.
pub fn snapshot_name(dataset: &str, name: &str) -> (r: String)
    ensures
        r@ == snapshot_text(dataset@, name@),
{
    text::cat3(dataset, "@", name)
}

/// Takes a snapshot.
pub fn create(dataset: &str, name: &str) -> (r: Cmd)
    ensures
        r@ == command::cmd("zfs"@, seq!["snapshot"@, snapshot_text(dataset@, name@)], "zfs snapshot"@, "zfs snapshot"@),
        deeds::zfs(r@) == Some(Deed::Snap { name: snapshot_text(dataset@, name@) }),
{
    proof {
        deeds::lemma_zfs();
    }
    let s = snapshot_name(dataset, name);
    let r = command::command("zfs", &["snapshot", s.as_str()], "zfs snapshot", "zfs snapshot");
    assert(r@.args =~= seq!["snapshot"@, snapshot_text(dataset@, name@)]);
    r
}

/// Asks whether a snapshot is there.
pub fn ask(dataset: &str, name: &str) -> (r: Cmd)
    ensures
        r@ == command::cmd("zfs"@, seq!["list"@, "-H"@, "-t"@, "snapshot"@, "-o"@, "name"@, snapshot_text(dataset@, name@)], "zfs list"@, "zfs list"@),
        deeds::zfs(r@) == Some(Deed::LookSnap { name: snapshot_text(dataset@, name@) }),
{
    proof {
        deeds::lemma_zfs();
    }
    let s = snapshot_name(dataset, name);
    let r = command::command("zfs", &["list", "-H", "-t", "snapshot", "-o", "name", s.as_str()], "zfs list", "zfs list");
    assert(r@.args =~= seq!["list"@, "-H"@, "-t"@, "snapshot"@, "-o"@, "name"@, snapshot_text(dataset@, name@)]);
    r
}

/// Takes a dataset back to a snapshot, and destroys the later ones.
pub fn rollback(dataset: &str, name: &str) -> (r: Cmd)
    ensures
        r@ == command::cmd("zfs"@, seq!["rollback"@, "-r"@, snapshot_text(dataset@, name@)], "zfs rollback"@, "zfs rollback"@),
        deeds::zfs(r@) == Some(Deed::RollBack { name: snapshot_text(dataset@, name@) }),
{
    proof {
        deeds::lemma_zfs();
    }
    let s = snapshot_name(dataset, name);
    let r = command::command("zfs", &["rollback", "-r", s.as_str()], "zfs rollback", "zfs rollback");
    assert(r@.args =~= seq!["rollback"@, "-r"@, snapshot_text(dataset@, name@)]);
    r
}

/// Lists the snapshots of a dataset, oldest first.
pub fn list_command(dataset: &str) -> (r: Cmd)
    ensures
        r@ == command::cmd("zfs"@, seq!["list"@, "-Hp"@, "-r"@, "-t"@, "snapshot"@, "-o"@, "name,used,refer,creation"@, dataset@], "zfs list"@, "zfs list"@),
        deeds::zfs(r@) == Some(Deed::Snaps { name: dataset@ }),
{
    proof {
        deeds::lemma_zfs();
    }
    let r = command::command("zfs", &["list", "-Hp", "-r", "-t", "snapshot", "-o", "name,used,refer,creation", dataset], "zfs list", "zfs list");
    assert(r@.args =~= seq!["list"@, "-Hp"@, "-r"@, "-t"@, "snapshot"@, "-o"@, "name,used,refer,creation"@, dataset@]);
    r
}

/// Destroys a snapshot.
pub fn destroy(dataset: &str, name: &str) -> (r: Cmd)
    ensures
        r@ == command::cmd("zfs"@, seq!["destroy"@, snapshot_text(dataset@, name@)], "zfs destroy"@, "zfs destroy"@),
        deeds::zfs(r@) == Some(Deed::DestroyOne { name: snapshot_text(dataset@, name@) }),
{
    proof {
        deeds::lemma_zfs();
    }
    let s = snapshot_name(dataset, name);
    let r = command::command("zfs", &["destroy", s.as_str()], "zfs destroy", "zfs destroy");
    assert(r@.args =~= seq!["destroy"@, snapshot_text(dataset@, name@)]);
    r
}

/// What follows the last `@` of a name; nothing where there is none.
pub open spec fn short(full: Seq<char>) -> Seq<char> {
    let parts = text::split_char(full, '@');
    if parts.len() > 1 {
        parts.last()
    } else {
        Seq::empty()
    }
}

/// What follows the last `@` of a name; nothing where there is none.
pub fn short_name(full: &str) -> (r: String)
    ensures
        r@ == short(full@),
{
    let parts = text::split(full, '@');
    assert(text::views(parts@).len() == parts.len());
    if parts.len() > 1 {
        let s = parts[parts.len() - 1].clone();
        assert(text::views(parts@).last() == s@);
        s
    } else {
        let s = String::new();
        assert(s@ =~= Seq::<char>::empty());
        s
    }
}

/// The short name of a snapshot is the name it was taken under.
pub proof fn law_short_name(dataset: Seq<char>, name: Seq<char>)
    requires
        forall|i: int| 0 <= i < name.len() ==> name[i] != '@',
    ensures
        short(snapshot_text(dataset, name)) == name,
{
    reveal_strlit("@");
    assert(snapshot_text(dataset, name) =~= dataset.push('@') + name);
    text::lemma_split_append(dataset, name, '@');
    text::lemma_split_nonempty(dataset, text::just('@'));
}

/// What a line of a listing says: nothing where it is blank or has fewer than
/// four fields between tabs.
pub open spec fn line_info(line: Seq<char>) -> Option<Result<Info, Seq<char>>> {
    let t = text::trim(line);
    let f = text::split_char(t, '\t');
    if t.len() == 0 || f.len() < 4 {
        None
    } else {
        Some(
            match (
                zfs::number_in(f[1], "used"@),
                zfs::number_in(f[2], "referenced"@),
                zfs::number_in(f[3], "creation"@),
            ) {
                (Err(m), _, _) => Err(m),
                (Ok(_), Err(m), _) => Err(m),
                (Ok(_), Ok(_), Err(m)) => Err(m),
                (Ok(used), Ok(referenced), Ok(creation)) => Ok(
                    Info { name: f[0], short_name: short(f[0]), used, referenced, creation },
                ),
            },
        )
    }
}

/// What the given lines say: the first that cannot be read decides.
pub open spec fn parsed(lines: Seq<Seq<char>>) -> Result<Seq<Info>, Seq<char>>
    decreases lines.len(),
{
    if lines.len() == 0 {
        Ok(Seq::empty())
    } else {
        match parsed(lines.drop_last()) {
            Err(m) => Err(m),
            Ok(before) => match line_info(lines.last()) {
                None => Ok(before),
                Some(Err(m)) => Err(m),
                Some(Ok(i)) => Ok(before.push(i)),
            },
        }
    }
}

proof fn lemma_parsed_error(lines: Seq<Seq<char>>, n: int)
    requires
        0 <= n <= lines.len(),
        parsed(lines.take(n)) is Err,
    ensures
        parsed(lines) == parsed(lines.take(n)),
    decreases lines.len(),
{
    if n == lines.len() {
        assert(lines.take(n) =~= lines);
    } else {
        assert(lines.drop_last().take(n) =~= lines.take(n));
        lemma_parsed_error(lines.drop_last(), n);
    }
}

fn parse_line(line: &str) -> (r: Option<Result<SnapshotInfo, Error>>)
    ensures
        match r {
            None => line_info(line@) is None,
            Some(Ok(i)) => line_info(line@) == Some(Ok::<Info, Seq<char>>(i@)),
            Some(Err(e)) => line_info(line@) matches Some(Err(m)) && error::is_zfs(e, m),
        },
{
    let t = text::trimmed(line);
    if t.as_str().is_empty() {
        return None;
    }
    let f = text::split(t.as_str(), '\t');
    let ghost v = text::views(f@);
    assert(v.len() == f.len());
    if f.len() < 4 {
        return None;
    }
    assert(v[0] == f@[0]@ && v[1] == f@[1]@ && v[2] == f@[2]@ && v[3] == f@[3]@);
    let used: u64 = match zfs::parse_u64(f[1].as_str(), "used") {
        Ok(n) => n,
        Err(e) => return Some(Err(e)),
    };
    let referenced: u64 = match zfs::parse_u64(f[2].as_str(), "referenced") {
        Ok(n) => n,
        Err(e) => return Some(Err(e)),
    };
    let creation: u64 = match zfs::parse_u64(f[3].as_str(), "creation") {
        Ok(n) => n,
        Err(e) => return Some(Err(e)),
    };
    Some(
        Ok(
            SnapshotInfo {
                name: f[0].clone(),
                short_name: short_name(f[0].as_str()),
                used,
                referenced,
                creation,
            },
        ),
    )
}

/// The snapshots in the answer to [`list_command`]; none where it failed, which is
/// how a dataset without any is answered.
pub fn list(listing: Option<&str>) -> (r: Result<Vec<SnapshotInfo>, Error>)
    ensures
        match listing {
            None => r matches Ok(v) && v@.len() == 0,
            Some(s) => match r {
                Ok(v) => parsed(text::lines(s@)) == Ok::<Seq<Info>, Seq<char>>(infos(v@)),
                Err(e) => parsed(text::lines(s@)) matches Err(m) && error::is_zfs(e, m),
            },
        },
{
    let mut out: Vec<SnapshotInfo> = Vec::new();
    assert(infos(out@) =~= Seq::<Info>::empty());
    let s = match listing {
        None => return Ok(out),
        Some(s) => s,
    };
    let lines = text::split_lines(s);
    let ghost v = text::lines(s@);
    let mut i: usize = 0;
    assert(v.take(0) =~= Seq::<Seq<char>>::empty());
    while i < lines.len()
        invariant
            i <= lines.len(),
            v == text::views(lines@),
            v == text::lines(s@),
            listing == Some(s),
            parsed(v.take(i as int)) == Ok::<Seq<Info>, Seq<char>>(infos(out@)),
        decreases lines.len() - i,
    {
        let ghost before = infos(out@);
        proof {
            assert(v.take(i + 1).drop_last() =~= v.take(i as int));
            assert(v.take(i + 1).last() == lines@[i as int]@);
        }
        match parse_line(lines[i].as_str()) {
            None => {},
            Some(Ok(info)) => {
                out.push(info);
                assert(infos(out@) =~= before.push(info@));
            },
            Some(Err(e)) => {
                proof {
                    lemma_parsed_error(v, i + 1);
                }
                return Err(e);
            },
        }
        i += 1;
    }
    assert(v.take(v.len() as int) =~= v);
    Ok(out)
}

} // verus!
