//! Checkpoints of a workspace and its scratch files.
//!
//! A checkpoint is a directory named by its id. It is built beside the others under
//! another name and gets its own only once it is complete. It is restored beside
//! the live workspace and then takes its place, so that the live workspace is never
//! lost.
use crate::command;
use crate::command::{Cmd, Outcome};
use crate::deeds;
use crate::deeds::Deed;
use crate::emberd::json;
use crate::emberd::request::Request;
use crate::emberd::reset;
use crate::paths;
use crate::plan;
use crate::plan::{Plan, Reply};
use crate::text;
use vstd::prelude::*;

verus! {

/// Where checkpoints are kept.
pub const DEFAULT_CHECKPOINT_ROOT: &'static str = "/var/lib/emberd/checkpoints";

/// The live workspace.
pub const DEFAULT_WORKSPACE: &'static str = "/home/ubuntu/workspace";

/// Scratch files that belong to a checkpoint.
pub const DEFAULT_TMP_GLOBS: [&'static str; 2] = ["/tmp/thermite-*", "/tmp/agent-*"];

/// How many bytes all checkpoints together may have.
pub const DEFAULT_QUOTA_BYTES: u64 = 1024 * 1024 * 1024;

/// What a checkpoint is made of, and where it is kept.
#[derive(Debug, PartialEq, Eq)]
pub struct Config {
    pub workspace: String,
    pub checkpoint_root: String,
    pub tmp_globs: Vec<String>,
    pub quota_bytes: u64,
}

/// The usual scratch files.
pub open spec fn default_globs() -> Seq<Seq<char>> {
    seq!["/tmp/thermite-*"@, "/tmp/agent-*"@]
}

impl Default for Config {
    fn default() -> (r: Self)
        ensures
            r.workspace@ == DEFAULT_WORKSPACE@,
            r.checkpoint_root@ == DEFAULT_CHECKPOINT_ROOT@,
            text::views(r.tmp_globs@) == default_globs(),
            r.quota_bytes == DEFAULT_QUOTA_BYTES,
    {
        let globs = command::strings(&["/tmp/thermite-*", "/tmp/agent-*"]);
        assert(text::views(globs@) =~= default_globs());
        Config {
            workspace: DEFAULT_WORKSPACE.to_owned(),
            checkpoint_root: DEFAULT_CHECKPOINT_ROOT.to_owned(),
            tmp_globs: globs,
            quota_bytes: DEFAULT_QUOTA_BYTES,
        }
    }
}

/// Whether `c` is what a request asks for: the usual, but for what it says.
pub open spec fn is_config(c: Config, req: Request) -> bool {
    &&& c.workspace@ == (match req.workspace {
        Some(w) => w@,
        None => DEFAULT_WORKSPACE@,
    })
    &&& c.checkpoint_root@ == (match req.checkpoint_root {
        Some(r) => r@,
        None => DEFAULT_CHECKPOINT_ROOT@,
    })
    &&& text::views(c.tmp_globs@) == (match req.tmp_globs {
        Some(g) => text::views(g@),
        None => default_globs(),
    })
    &&& c.quota_bytes == (match req.quota_bytes {
        Some(q) => q,
        None => DEFAULT_QUOTA_BYTES,
    })
}

impl Config {
    /// What a request asks for.
    pub fn from_request(req: &Request) -> (c: Self)
        ensures
            is_config(c, *req),
    {
        let mut c = Config::default();
        if let Some(w) = &req.workspace {
            c.workspace = w.clone();
        }
        if let Some(r) = &req.checkpoint_root {
            c.checkpoint_root = r.clone();
        }
        if let Some(g) = &req.tmp_globs {
            c.tmp_globs = crate::emberd::request::copy_strings(g);
        }
        if let Some(q) = req.quota_bytes {
            c.quota_bytes = q;
        }
        c
    }
}

/// How the workspace of a checkpoint is stored.
#[derive(Clone, Copy, Debug, PartialEq, Eq, Structural)]
pub enum WorkspaceMethod {
    /// As a copy-on-write tree.
    Cow,
    /// As a compressed archive.
    Tar,
}

/// The method that a word stands for.
pub open spec fn method_of(s: Seq<char>) -> Option<WorkspaceMethod> {
    if s == "cow"@ {
        Some(WorkspaceMethod::Cow)
    } else if s == "tar"@ {
        Some(WorkspaceMethod::Tar)
    } else {
        None
    }
}

impl WorkspaceMethod {
    pub open spec fn text(self) -> Seq<char> {
        match self {
            WorkspaceMethod::Cow => "cow"@,
            WorkspaceMethod::Tar => "tar"@,
        }
    }

    /// The word for the method.
    pub fn as_str(self) -> (r: &'static str)
        ensures
            r@ == self.text(),
    {
        match self {
            WorkspaceMethod::Cow => "cow",
            WorkspaceMethod::Tar => "tar",
        }
    }

    /// The method that a word stands for.
    pub fn from_str(s: &str) -> (r: Option<Self>)
        ensures
            r == method_of(s@),
    {
        if text::same(s, "cow") {
            Some(WorkspaceMethod::Cow)
        } else if text::same(s, "tar") {
            Some(WorkspaceMethod::Tar)
        } else {
            None
        }
    }
}

/// A method is known by its word.
pub proof fn law_method_round_trip(m: WorkspaceMethod)
    ensures
        method_of(m.text()) == Some(m),
{
    reveal_strlit("cow");
    reveal_strlit("tar");
    assert("cow"@[0] == 'c');
    assert("tar"@[0] == 't');
}

// ---------------------------------------------------------------------- ids

/// Whether a character may occur in an id.
pub open spec fn id_char(c: char) -> bool {
    text::is_ascii_alnum(c) || c == '.' || c == '_' || c == '-'
}

/// Whether an id is safe: letters, digits, dots, underscores and dashes, at least
/// one of them, and no two dots in a row.
pub open spec fn is_valid_id(id: Seq<char>) -> bool {
    &&& id.len() > 0
    &&& id != "."@
    &&& forall|i: int| 0 <= i < id.len() ==> id_char(#[trigger] id[i])
    &&& !text::contains_text(id, ".."@)
}

/// Whether an id is safe.
pub fn valid_id(id: &str) -> (r: bool)
    ensures
        r == is_valid_id(id@),
{
    let v = text::to_chars(id);
    if v.len() == 0 || text::same(id, ".") {
        return false;
    }
    let mut i: usize = 0;
    while i < v.len()
        invariant
            i <= v.len(),
            v@ == id@,
            forall|j: int| 0 <= j < i ==> id_char(#[trigger] v@[j]),
        decreases v.len() - i,
    {
        let c = v[i];
        if !(text::ascii_alnum(c) || c == '.' || c == '_' || c == '-') {
            assert(!id_char(id@[i as int]));
            return false;
        }
        i += 1;
    }
    !text::contains(id, "..")
}

/// The directory of a checkpoint with a safe id lies right below the directory of
/// all checkpoints.
pub proof fn law_valid_id_stays_below(root: Seq<char>, id: Seq<char>)
    requires
        is_valid_id(id),
    ensures
        paths::components(paths::joined(root, id)) == paths::components(root).push(id),
        id != ".."@,
{
    reveal_strlit("/");
    reveal_strlit(".");
    reveal_strlit("..");
    assert(id_char(id[0]));
    assert forall|i: int| 0 <= i < id.len() implies id[i] != '/' by {
        assert(id_char(id[i]));
    }
    text::lemma_split_none(id, '/');
    assert(text::split_char(id, '/').drop_last() =~= Seq::<Seq<char>>::empty());
    reveal_with_fuel(paths::named, 2);
    assert(paths::components(id) =~= seq![id]);
    if id == ".."@ {
        assert(id.subrange(0, 2) =~= ".."@);
        assert(text::occurs_at(id, ".."@, 0));
    }
    let p = paths::joined(root, id);
    if root.len() == 0 {
        assert(p =~= id);
        assert(root =~= Seq::<char>::empty());
        text::lemma_split_none(root, '/');
        assert(text::split_char(root, '/').drop_last() =~= Seq::<Seq<char>>::empty());
        assert(paths::components(root) =~= Seq::<Seq<char>>::empty());
        assert(paths::components(p) =~= paths::components(root).push(id));
    } else if root.last() == '/' {
        let head = root.drop_last();
        assert(head.push('/') =~= root);
        reset::lemma_components_concat(head, id);
        let none = Seq::<char>::empty();
        reset::lemma_components_concat(head, none);
        assert(head.push('/') + none =~= root);
        text::lemma_split_none(none, '/');
        assert(text::split_char(none, '/').drop_last() =~= Seq::<Seq<char>>::empty());
        assert(paths::components(none) =~= Seq::<Seq<char>>::empty());
        assert(paths::components(root) =~= paths::components(head));
        assert(paths::components(p) =~= paths::components(root).push(id));
    } else {
        assert(p =~= root.push('/') + id);
        reset::lemma_components_concat(root, id);
        assert(paths::components(p) =~= paths::components(root).push(id));
    }
}

/// The bits of `x`, moved 11 places up; those that fall off come in below.
pub open spec fn rotated(x: u32) -> u32 {
    (x << 11) | (x >> 21)
}

/// The id of a checkpoint: the time in seconds, and eight digits from the fraction
/// of the second and the process.
pub open spec fn id_text(secs: u64, nanos: u32, pid: u32) -> Seq<char> {
    "cp-"@ + text::dec(secs as nat) + "-"@ + text::hex_fixed((nanos ^ rotated(pid)) as nat, 8)
}

/// The id of a new checkpoint.
pub fn generate_id(secs: u64, nanos: u32, pid: u32) -> (r: String)
    ensures
        r@ == id_text(secs, nanos, pid),
{
    let turned: u32 = (pid << 11) | (pid >> 21);
    let mix: u32 = nanos ^ turned;
    text::cat4("cp-", text::dec_u64(secs).as_str(), "-", text::hex_u64(mix as u64, 8).as_str())
}

proof fn lemma_hex_chars(n: nat, width: nat)
    ensures
        forall|i: int|
            0 <= i < text::hex_fixed(n, width).len() ==> id_char(
                #[trigger] text::hex_fixed(n, width)[i],
            ) && text::hex_fixed(n, width)[i] != '.',
    decreases width,
{
    if width > 0 {
        lemma_hex_chars(n / 16, (width - 1) as nat);
        let s = text::hex_fixed(n, width);
        let t = text::hex_fixed(n / 16, (width - 1) as nat);
        let d = (n % 16) as nat;
        let c = text::hex_char(d);
        assert(id_char(c) && c != '.') by {
            if d < 10 {
                assert('0' <= c && c <= '9');
            } else {
                assert('a' <= c && c <= 'z');
            }
        }
        assert forall|i: int| 0 <= i < s.len() implies id_char(#[trigger] s[i]) && s[i] != '.' by {
            if i < t.len() {
                assert(s[i] == t[i]);
            }
        }
    }
}

/// The id of a new checkpoint is safe.
pub proof fn law_generated_ids_are_valid(secs: u64, nanos: u32, pid: u32)
    ensures
        is_valid_id(id_text(secs, nanos, pid)),
{
    reveal_strlit("cp-");
    reveal_strlit("-");
    reveal_strlit(".");
    reveal_strlit("..");
    let id = id_text(secs, nanos, pid);
    let d = text::dec(secs as nat);
    let h = text::hex_fixed((nanos ^ rotated(pid)) as nat, 8);
    text::lemma_value_of_dec(secs as nat);
    lemma_hex_chars((nanos ^ rotated(pid)) as nat, 8);
    assert forall|i: int| 0 <= i < id.len() implies id_char(#[trigger] id[i]) && id[i] != '.' by {
        if i < 3 {
            assert(id[i] == "cp-"@[i]);
        } else if i < 3 + d.len() {
            assert(id[i] == d[i - 3]);
            assert(text::is_digit(d[i - 3]));
        } else if i == 3 + d.len() {
            assert(id[i] == '-');
        } else {
            assert(id[i] == h[i - 4 - d.len()]);
        }
    }
    if text::contains_text(id, ".."@) {
        let k = choose|k: int| text::occurs_at(id, ".."@, k);
        assert(id.subrange(k, k + 2)[0] == '.');
        assert(id[k] == '.');
    }
    assert(id[0] != '.');
}

// -------------------------------------------------------------------- paths

/// The last component of a path; `workspace` where it has none.
pub open spec fn name_of(path: Seq<char>) -> Seq<char> {
    match paths::last_name(path) {
        Some(n) => n,
        None => "workspace"@,
    }
}

/// The last component of a path; `workspace` where it has none.
pub fn file_name_str(path: &str) -> (r: String)
    ensures
        r@ == name_of(path@),
{
    match paths::file_name(path) {
        Some(n) => n,
        None => "workspace".to_owned(),
    }
}

/// Where a checkpoint is built.
pub fn staging_dir(root: &str, id: &str) -> (r: String)
    ensures
        r@ == paths::joined(root@, ".staging-"@ + id@),
{
    paths::join(root, text::cat2(".staging-", id).as_str())
}

/// Where a checkpoint is kept.
pub fn checkpoint_dir(root: &str, id: &str) -> (r: String)
    ensures
        r@ == paths::joined(root@, id@),
{
    paths::join(root, id)
}

/// Where a scratch file is kept in a checkpoint: its number makes the name unique.
pub open spec fn stored_text(i: nat, path: Seq<char>) -> Seq<char> {
    text::dec(i) + "-"@ + name_of(path)
}

/// Where a scratch file is kept in a checkpoint.
pub fn stored_name(i: usize, path: &str) -> (r: String)
    ensures
        r@ == stored_text(i as nat, path@),
{
    text::cat3(text::dec_u64(i as u64).as_str(), "-", file_name_str(path).as_str())
}

/// No two scratch files of a checkpoint are kept under one name.
pub proof fn law_stored_names_differ(i: nat, p: Seq<char>, j: nat, q: Seq<char>)
    requires
        stored_text(i, p) == stored_text(j, q),
    ensures
        i == j,
{
    reveal_strlit("-");
    text::lemma_value_of_dec(i);
    text::lemma_value_of_dec(j);
    let a = text::dec(i);
    let b = text::dec(j);
    let s = stored_text(i, p);
    let t = stored_text(j, q);
    assert(s[a.len() as int] == '-');
    assert(t[b.len() as int] == '-');
    if a.len() < b.len() {
        assert(t[a.len() as int] == b[a.len() as int]);
        assert(text::is_digit(b[a.len() as int]));
    } else if b.len() < a.len() {
        assert(s[b.len() as int] == a[b.len() as int]);
        assert(text::is_digit(a[b.len() as int]));
    }
    assert(a =~= s.take(a.len() as int));
    assert(b =~= t.take(b.len() as int));
}

/// Where the workspace is restored to, before it takes its place.
pub fn stage_path(parent: &str, id: &str, file_name: &str) -> (r: String)
    ensures
        r@ == paths::joined(parent@, ".emberd-restore-"@ + id@ + "-"@ + file_name@),
{
    paths::join(parent, text::cat4(".emberd-restore-", id, "-", file_name).as_str())
}

/// Where the live workspace is put meanwhile.
pub fn old_path(parent: &str, id: &str, file_name: &str) -> (r: String)
    ensures
        r@ == paths::joined(parent@, ".emberd-old-"@ + id@ + "-"@ + file_name@),
{
    paths::join(parent, text::cat4(".emberd-old-", id, "-", file_name).as_str())
}

/// Where the scratch files of a checkpoint are.
pub fn tmp_dir(dir: &str) -> (r: String)
    ensures
        r@ == paths::joined(dir@, "tmp"@),
{
    paths::join(dir, "tmp")
}

/// Where the manifest of a checkpoint is, given the name of its file.
pub fn manifest_path(dir: &str, file_name: &str) -> (r: String)
    ensures
        r@ == paths::joined(dir@, file_name@),
{
    paths::join(dir, file_name)
}

/// Where the workspace of a checkpoint is, stored as a tree.
pub fn tree_path(dir: &str) -> (r: String)
    ensures
        r@ == paths::joined(dir@, "workspace"@),
{
    paths::join(dir, "workspace")
}

/// Where the workspace of a checkpoint is, stored as an archive.
pub fn archive_path(dir: &str) -> (r: String)
    ensures
        r@ == paths::joined(dir@, "workspace.tar.gz"@),
{
    paths::join(dir, "workspace.tar.gz")
}

/// A name without what follows its last dot, unless that dot comes first.
pub open spec fn stem(name: Seq<char>) -> Seq<char> {
    let p = text::split_char(name, '.');
    if p.len() < 2 || p.drop_last() == seq![Seq::<char>::empty()] {
        name
    } else {
        text::join(p.drop_last(), "."@)
    }
}

/// The name of the directory that an archive is unpacked in, beside the directory
/// of the given name.
pub fn untar_name(name: &str) -> (r: String)
    ensures
        r@ == stem(name@) + ".untar"@,
{
    let mut p = text::split(name, '.');
    let ghost v = text::views(p@);
    assert(v.len() == p.len());
    if p.len() < 2 {
        return text::cat2(name, ".untar");
    }
    p.pop();
    assert(text::views(p@) =~= v.drop_last());
    if p.len() == 1 && p[0].as_str().is_empty() {
        proof {
            assert(v.drop_last()[0] =~= Seq::<char>::empty());
            assert(v.drop_last() =~= seq![Seq::<char>::empty()]);
        }
        return text::cat2(name, ".untar");
    }
    proof {
        if v.drop_last() == seq![Seq::<char>::empty()] {
            assert(v.drop_last().len() == 1);
            assert(p@[0]@ == v.drop_last()[0]);
        }
    }
    text::cat2(text::join_strings(&p, ".").as_str(), ".untar")
}

// -------------------------------------------------------------------- quota

/// The bytes of a new checkpoint: those of the workspace and of the scratch files.
pub open spec fn incoming(workspace: nat, files: Seq<u64>) -> nat {
    workspace + crate::emberd::stats::sum(files)
}

/// Refuses a checkpoint where all checkpoints together would have too many bytes.
pub fn quota_guard(existing: u64, workspace: u64, files: &Vec<u64>, quota: u64) -> (r: Result<
    bool,
    String,
>)
    requires
        existing + incoming(workspace as nat, files@) <= u64::MAX,
    ensures
        match r {
            Ok(b) => b && existing + incoming(workspace as nat, files@) <= quota,
            Err(e) => existing + incoming(workspace as nat, files@) > quota && e@
                == "disk-quota guard: checkpoint area would reach "@ + text::dec(
                (existing + incoming(workspace as nat, files@)) as nat,
            ) + " bytes, exceeding limit "@ + text::dec(quota as nat),
        },
{
    let size: u64 = match crate::emberd::stats::checked_sum(files) {
        Some(n) => n,
        None => 0,
    };
    let total: u64 = existing + workspace + size;
    if total > quota {
        return Err(
            text::cat4(
                "disk-quota guard: checkpoint area would reach ",
                text::dec_u64(total).as_str(),
                " bytes, exceeding limit ",
                text::dec_u64(quota).as_str(),
            ),
        );
    }
    Ok(true)
}

// ------------------------------------------------------------ scratch files

/// Something that a pattern matched.
#[derive(Debug, PartialEq, Eq)]
pub struct Found {
    pub path: String,
    pub is_file: bool,
}

/// What a component of a path is worth in the order of paths: the root comes first,
/// then the current directory, then the one above, then names.
pub open spec fn rank(c: Seq<char>) -> int {
    if c == "/"@ {
        0
    } else if c == "."@ {
        1
    } else if c == ".."@ {
        2
    } else {
        3
    }
}

/// The components of a path, with its root or its leading dot.
#[verifier::opaque]
pub open spec fn parts(path: Seq<char>) -> Seq<Seq<char>> {
    if path.len() > 0 && path[0] == '/' {
        seq!["/"@] + paths::components(path)
    } else if path.len() > 0 && path[0] == '.' && (path.len() == 1 || path[1] == '/') {
        seq!["."@] + paths::components(path)
    } else {
        paths::components(path)
    }
}

/// Whether a component comes before another one.
pub open spec fn part_less(a: Seq<char>, b: Seq<char>) -> bool {
    rank(a) < rank(b) || rank(a) == 3 && rank(b) == 3 && text::str_less(a, b)
}

/// Whether a list of components comes before another one.
pub open spec fn parts_less(a: Seq<Seq<char>>, b: Seq<Seq<char>>) -> bool
    decreases a.len(),
{
    if b.len() == 0 {
        false
    } else if a.len() == 0 {
        true
    } else if a[0] != b[0] {
        part_less(a[0], b[0])
    } else {
        parts_less(a.skip(1), b.skip(1))
    }
}

/// Whether two paths say the same.
pub open spec fn same_path(a: Seq<char>, b: Seq<char>) -> bool {
    parts(a) == parts(b)
}

/// Whether a path comes before another one.
pub open spec fn path_less(a: Seq<char>, b: Seq<char>) -> bool {
    parts_less(parts(a), parts(b))
}

proof fn lemma_part_less(a: Seq<char>, b: Seq<char>)
    ensures
        part_less(a, b) || part_less(b, a) || a == b,
        !(part_less(a, b) && part_less(b, a)),
        !part_less(a, a),
{
    reveal_strlit("/");
    reveal_strlit(".");
    reveal_strlit("..");
    text::lemma_str_less_total(a, b);
    text::lemma_str_less_total(a, a);
}

proof fn lemma_part_less_transitive(a: Seq<char>, b: Seq<char>, c: Seq<char>)
    requires
        part_less(a, b),
        part_less(b, c),
    ensures
        part_less(a, c),
{
    if rank(a) == 3 && rank(b) == 3 && rank(c) == 3 {
        text::lemma_str_less_transitive(a, b, c);
    }
}

/// Of two lists of components that differ, one comes before the other.
pub proof fn lemma_parts_less_total(a: Seq<Seq<char>>, b: Seq<Seq<char>>)
    ensures
        parts_less(a, b) || parts_less(b, a) || a == b,
        !(parts_less(a, b) && parts_less(b, a)),
        !parts_less(a, a),
    decreases a.len(),
{
    if a.len() > 0 {
        lemma_parts_less_total(a.skip(1), a.skip(1));
    }
    if a.len() > 0 && b.len() > 0 {
        lemma_part_less(a[0], b[0]);
        if a[0] == b[0] {
            lemma_parts_less_total(a.skip(1), b.skip(1));
            if a.skip(1) == b.skip(1) {
                assert(a =~= seq![a[0]] + a.skip(1));
                assert(b =~= seq![b[0]] + b.skip(1));
            }
        }
    }
    if a.len() == 0 && b.len() == 0 {
        assert(a =~= b);
    }
}

pub proof fn lemma_parts_less_transitive(a: Seq<Seq<char>>, b: Seq<Seq<char>>, c: Seq<Seq<char>>)
    requires
        parts_less(a, b),
        parts_less(b, c),
    ensures
        parts_less(a, c),
    decreases a.len(),
{
    if a.len() > 0 {
        if a[0] == b[0] && b[0] == c[0] {
            lemma_parts_less_transitive(a.skip(1), b.skip(1), c.skip(1));
        } else if a[0] != b[0] && b[0] != c[0] {
            lemma_part_less_transitive(a[0], b[0], c[0]);
            lemma_part_less(a[0], b[0]);
            if a[0] == c[0] {
                lemma_part_less(b[0], c[0]);
            }
        }
    }
}

fn rank_of(c: &str) -> (r: u8)
    ensures
        r == rank(c@),
{
    if text::same(c, "/") {
        0
    } else if text::same(c, ".") {
        1
    } else if text::same(c, "..") {
        2
    } else {
        3
    }
}

fn read_parts(path: &str) -> (r: Vec<String>)
    ensures
        text::views(r@) == parts(path@),
{
    let v = text::to_chars(path);
    let c = paths::split_components(path);
    let mut out: Vec<String> = Vec::new();
    reveal(parts);
    if v.len() > 0 && v[0] == '/' {
        out.push("/".to_owned());
        assert(text::views(out@) =~= seq!["/"@]);
    } else if v.len() > 0 && v[0] == '.' && (v.len() == 1 || v[1] == '/') {
        out.push(".".to_owned());
        assert(text::views(out@) =~= seq!["."@]);
    } else {
        return c;
    }
    let ghost lead = text::views(out@);
    let mut i: usize = 0;
    assert(lead + text::views(c@).take(0) =~= lead);
    while i < c.len()
        invariant
            i <= c.len(),
            text::views(out@) == lead + text::views(c@).take(i as int),
        decreases c.len() - i,
    {
        let s = c[i].clone();
        proof {
            text::lemma_views_push(out@, s);
            assert((lead + text::views(c@).take(i as int)).push(s@) =~= lead + text::views(c@).take(
                i + 1,
            ));
        }
        out.push(s);
        i += 1;
    }
    assert(text::views(c@).take(c@.len() as int) =~= text::views(c@));
    out
}

/// Whether a path comes before, is the same as, or comes after another one.
#[derive(Clone, Copy, Debug, PartialEq, Eq, Structural)]
pub enum Place {
    Before,
    Same,
    After,
}

/// How a path stands to another one: component by component, a directory before
/// what is in it.
pub fn place(a: &str, b: &str) -> (r: Place)
    ensures
        match r {
            Place::Before => path_less(a@, b@),
            Place::Same => same_path(a@, b@),
            Place::After => path_less(b@, a@),
        },
{
    let x = read_parts(a);
    let y = read_parts(b);
    let ghost p = text::views(x@);
    let ghost q = text::views(y@);
    let mut i: usize = 0;
    proof {
        assert(p.skip(0) =~= p);
        assert(q.skip(0) =~= q);
    }
    while i < x.len() && i < y.len()
        invariant
            i <= x.len(),
            i <= y.len(),
            p == text::views(x@),
            q == text::views(y@),
            p == parts(a@),
            q == parts(b@),
            p.take(i as int) == q.take(i as int),
            parts_less(p.skip(i as int), q.skip(i as int)) == parts_less(p, q),
            parts_less(q.skip(i as int), p.skip(i as int)) == parts_less(q, p),
        decreases x.len() - i,
    {
        let s = x[i].as_str();
        let t = y[i].as_str();
        proof {
            assert(p.skip(i as int)[0] == s@);
            assert(q.skip(i as int)[0] == t@);
            assert(p.skip(i as int).skip(1) =~= p.skip(i + 1));
            assert(q.skip(i as int).skip(1) =~= q.skip(i + 1));
            lemma_part_less(s@, t@);
        }
        if !text::same(s, t) {
            let m: u8 = rank_of(s);
            let n: u8 = rank_of(t);
            if m < n || (m == 3 && n == 3 && text::less(s, t)) {
                return Place::Before;
            }
            return Place::After;
        }
        proof {
            assert(p.take(i + 1) =~= p.take(i as int).push(s@));
            assert(q.take(i + 1) =~= q.take(i as int).push(t@));
        }
        i += 1;
    }
    if i < y.len() {
        Place::Before
    } else if i < x.len() {
        Place::After
    } else {
        proof {
            assert(p.take(p.len() as int) =~= p);
            assert(q.take(q.len() as int) =~= q);
        }
        Place::Same
    }
}

/// Whether paths are in order, no two of them the same.
pub open spec fn in_order(v: Seq<Seq<char>>) -> bool {
    forall|i: int, j: int| 0 <= i < j < v.len() ==> path_less(#[trigger] v[i], #[trigger] v[j])
}

/// Whether `x` is the first way in which the files among the first `n` found say a
/// path.
#[verifier::opaque]
pub open spec fn first_found(found: Seq<Found>, n: int, x: Seq<char>) -> bool {
    exists|k: int|
        0 <= k < n && #[trigger] found[k].is_file && found[k].path@ == x && forall|m: int|
            0 <= m < k && #[trigger] found[m].is_file ==> !same_path(found[m].path@, x)
}

/// Whether `v` are the files among the first `n` found: in order, none twice, and
/// each as it was found first.
pub open spec fn are_files(found: Seq<Found>, n: int, v: Seq<Seq<char>>) -> bool {
    &&& in_order(v)
    &&& forall|i: int| 0 <= i < v.len() ==> first_found(found, n, #[trigger] v[i])
    &&& forall|k: int|
        0 <= k < n && #[trigger] found[k].is_file ==> exists|i: int|
            0 <= i < v.len() && same_path(#[trigger] v[i], found[k].path@)
}

/// The files among what the patterns matched: in order, none twice.
pub fn collect_tmp_files(found: &Vec<Found>) -> (r: Vec<String>)
    ensures
        are_files(found@, found@.len() as int, text::views(r@)),
{
    let mut out: Vec<String> = Vec::new();
    let mut i: usize = 0;
    while i < found.len()
        invariant
            i <= found.len(),
            are_files(found@, i as int, text::views(out@)),
        decreases found.len() - i,
    {
        let ghost v = text::views(out@);
        if found[i].is_file {
            let path = found[i].path.as_str();
            let mut j: usize = 0;
            let mut known = false;
            while j < out.len() && !known && place(out[j].as_str(), path) != Place::After
                invariant
                    j <= out.len(),
                    v == text::views(out@),
                    forall|k: int| 0 <= k < j ==> path_less(#[trigger] v[k], path@),
                    known ==> j < out.len() && same_path(v[j as int], path@),
                decreases out.len() - j + (if known {
                    0int
                } else {
                    1int
                }),
            {
                assert(v[j as int] == out@[j as int]@);
                if place(out[j].as_str(), path) == Place::Same {
                    known = true;
                } else {
                    j += 1;
                }
            }
            if known {
                proof {
                    lemma_known(found@, i as int, v, j as int);
                }
            } else {
                proof {
                    if j < out.len() {
                        assert(v[j as int] == out@[j as int]@);
                    }
                    lemma_new(found@, i as int, v, j as int);
                }
                let s = found[i].path.clone();
                out.insert(j, s);
                assert(text::views(out@) =~= v.insert(j as int, s@));
            }
        } else {
            proof {
                lemma_no_file(found@, i as int, v);
            }
        }
        i += 1;
    }
    out
}

proof fn lemma_found_grows(found: Seq<Found>, i: int, x: Seq<char>)
    requires
        first_found(found, i, x),
    ensures
        first_found(found, i + 1, x),
{
    reveal(first_found);
    let k = choose|k: int|
        0 <= k < i && #[trigger] found[k].is_file && found[k].path@ == x && forall|m: int|
            0 <= m < k && #[trigger] found[m].is_file ==> !same_path(found[m].path@, x);
    assert(found[k].is_file);
}

proof fn lemma_no_file(found: Seq<Found>, i: int, v: Seq<Seq<char>>)
    requires
        0 <= i < found.len(),
        !found[i].is_file,
        are_files(found, i, v),
    ensures
        are_files(found, i + 1, v),
{
    assert forall|q: int| 0 <= q < v.len() implies first_found(found, i + 1, #[trigger] v[q]) by {
        lemma_found_grows(found, i, v[q]);
    }
}

proof fn lemma_known(found: Seq<Found>, i: int, v: Seq<Seq<char>>, j: int)
    requires
        0 <= i < found.len(),
        are_files(found, i, v),
        0 <= j < v.len(),
        same_path(v[j], found[i].path@),
    ensures
        are_files(found, i + 1, v),
{
    assert forall|q: int| 0 <= q < v.len() implies first_found(found, i + 1, #[trigger] v[q]) by {
        lemma_found_grows(found, i, v[q]);
    }
    assert forall|k: int| 0 <= k < i + 1 && #[trigger] found[k].is_file implies exists|q: int|
        0 <= q < v.len() && same_path(#[trigger] v[q], found[k].path@) by {
        if k == i {
            assert(same_path(v[j], found[k].path@));
        }
    }
}

proof fn lemma_new(found: Seq<Found>, i: int, v: Seq<Seq<char>>, j: int)
    requires
        0 <= i < found.len(),
        found[i].is_file,
        are_files(found, i, v),
        0 <= j <= v.len(),
        forall|k: int| 0 <= k < j ==> path_less(#[trigger] v[k], found[i].path@),
        j < v.len() ==> path_less(found[i].path@, v[j]),
    ensures
        are_files(found, i + 1, v.insert(j, found[i].path@)),
{
    let x = found[i].path@;
    let w = v.insert(j, x);
    assert forall|k: int| j <= k < v.len() implies path_less(x, #[trigger] v[k]) by {
        if k > j {
            assert(path_less(v[j], v[k]));
            lemma_parts_less_transitive(parts(x), parts(v[j]), parts(v[k]));
        }
    }
    assert forall|p: int, q: int| 0 <= p < q < w.len() implies path_less(
        #[trigger] w[p],
        #[trigger] w[q],
    ) by {
        let a = if p < j {
            p
        } else {
            p - 1
        };
        let b = if q < j {
            q
        } else {
            q - 1
        };
        if p == j {
            assert(w[q] == v[b]);
        } else if q == j {
            assert(w[p] == v[a]);
        } else {
            assert(w[p] == v[a] && w[q] == v[b]);
        }
    }
    assert forall|m: int| 0 <= m < i && #[trigger] found[m].is_file implies !same_path(
        found[m].path@,
        x,
    ) by {
        let q = choose|q: int| 0 <= q < v.len() && same_path(#[trigger] v[q], found[m].path@);
        lemma_parts_less_total(parts(x), parts(x));
        if q < j {
            assert(path_less(v[q], x));
        } else {
            assert(path_less(x, v[q]));
        }
    }
    assert forall|q: int| 0 <= q < w.len() implies first_found(found, i + 1, #[trigger] w[q]) by {
        if q == j {
            reveal(first_found);
            assert(found[i].is_file);
        } else {
            let b = if q < j {
                q
            } else {
                q - 1
            };
            assert(w[q] == v[b]);
            lemma_found_grows(found, i, v[b]);
        }
    }
    assert forall|k: int| 0 <= k < i + 1 && #[trigger] found[k].is_file implies exists|q: int|
        0 <= q < w.len() && same_path(#[trigger] w[q], found[k].path@) by {
        if k == i {
            assert(same_path(w[j], found[k].path@));
        } else {
            let b = choose|b: int| 0 <= b < v.len() && same_path(#[trigger] v[b], found[k].path@);
            let q = if b < j {
                b
            } else {
                b + 1
            };
            assert(w[q] == v[b]);
        }
    }
}

// ----------------------------------------------------------------- manifest

/// What a checkpoint says of itself.
#[derive(Debug, PartialEq, Eq)]
pub struct Manifest {
    pub id: String,
    pub name: Option<String>,
    pub created_secs: u64,
    pub method: WorkspaceMethod,
    pub workspace: String,
    /// Each scratch file, and where it is kept.
    pub tmp_files: Vec<(String, String)>,
}

/// What a restore needs to know of a checkpoint.
#[derive(Debug, PartialEq, Eq)]
pub struct Contents {
    pub method: WorkspaceMethod,
    /// Each scratch file, and where it is kept.
    pub tmp_files: Vec<(String, String)>,
}

/// The manifest of a checkpoint as text.
pub open spec fn manifest_text(m: Manifest) -> Seq<char> {
    json::object_text(
        seq![
            ("id"@, Some(m.id@)),
            ("name"@, json::opt(m.name)),
            ("workspace_method"@, Some(m.method.text())),
            ("workspace_original"@, Some(m.workspace@)),
        ],
        ("created_secs"@, m.created_secs),
        ("tmp_files"@, json::pairs(m.tmp_files@)),
        "original"@,
        "stored"@,
    )
}

/// The manifest of a checkpoint as text. A restore reads from it what was written
/// to it.
pub fn write_manifest(m: &Manifest) -> (r: String)
    ensures
        r@ == manifest_text(*m),
        json::fault_in(r@) is None,
        json::string_in(r@, "id"@) == Some(m.id@),
        json::string_in(r@, "name"@) == json::opt(m.name),
        json::number_in(r@, "created_secs"@) == Some(m.created_secs),
        json::string_in(r@, "workspace_original"@) == Some(m.workspace@),
        method_in(r@) == Some(m.method),
        files_in(r@) == json::pairs(m.tmp_files@),
{
    let mut texts: Vec<(String, Option<String>)> = Vec::new();
    texts.push(("id".to_owned(), Some(m.id.clone())));
    texts.push(
        (
            "name".to_owned(),
            match &m.name {
                Some(n) => Some(n.clone()),
                None => None,
            },
        ),
    );
    texts.push(("workspace_method".to_owned(), Some(m.method.as_str().to_owned())));
    texts.push(("workspace_original".to_owned(), Some(m.workspace.clone())));
    let files = copy_pairs(&m.tmp_files);
    proof {
        lemma_keys();
        let k = json::members(texts@);
        assert(k[0].0 == "id"@ && k[1].0 == "name"@ && k[2].0 == "workspace_method"@ && k[3].0
            == "workspace_original"@);
        assert(k =~= seq![
            ("id"@, Some(m.id@)),
            ("name"@, json::opt(m.name)),
            ("workspace_method"@, Some(m.method.text())),
            ("workspace_original"@, Some(m.workspace@)),
        ]);
        assert(json::names_differ(k, "created_secs"@, "tmp_files"@));
        law_method_round_trip(m.method);
        json::lemma_full_rows(json::pairs(files@));
    }
    let ghost t = texts@;
    let r = json::write(
        texts,
        ("created_secs", m.created_secs),
        ("tmp_files", files),
        "original",
        "stored",
    );
    proof {
        assert(json::string_in(r@, t[0].0@) == json::opt(t[0].1));
        assert(json::string_in(r@, t[1].0@) == json::opt(t[1].1));
        assert(json::string_in(r@, t[2].0@) == json::opt(t[2].1));
        assert(json::string_in(r@, t[3].0@) == json::opt(t[3].1));
    }
    r
}

proof fn lemma_keys()
    ensures
        "id"@ != "name"@,
        "id"@ != "workspace_method"@,
        "id"@ != "workspace_original"@,
        "id"@ != "created_secs"@,
        "id"@ != "tmp_files"@,
        "name"@ != "workspace_method"@,
        "name"@ != "workspace_original"@,
        "name"@ != "created_secs"@,
        "name"@ != "tmp_files"@,
        "workspace_method"@ != "workspace_original"@,
        "workspace_method"@ != "created_secs"@,
        "workspace_method"@ != "tmp_files"@,
        "workspace_original"@ != "created_secs"@,
        "workspace_original"@ != "tmp_files"@,
        "created_secs"@ != "tmp_files"@,
        "original"@ != "stored"@,
{
    reveal_strlit("id");
    reveal_strlit("name");
    reveal_strlit("workspace_method");
    reveal_strlit("workspace_original");
    reveal_strlit("created_secs");
    reveal_strlit("tmp_files");
    reveal_strlit("original");
    reveal_strlit("stored");
    assert("id"@.len() == 2);
    assert("name"@.len() == 4);
    assert("workspace_method"@.len() == 16);
    assert("workspace_original"@.len() == 18);
    assert("created_secs"@.len() == 12);
    assert("tmp_files"@.len() == 9);
    assert("original"@.len() == 8);
    assert("stored"@.len() == 6);
}

fn copy_pairs(v: &Vec<(String, String)>) -> (r: Vec<(String, String)>)
    ensures
        json::pairs(r@) == json::pairs(v@),
{
    let mut out: Vec<(String, String)> = Vec::new();
    let mut i: usize = 0;
    while i < v.len()
        invariant
            i <= v.len(),
            json::pairs(out@) =~= json::pairs(v@).take(i as int),
        decreases v.len() - i,
    {
        let ghost before = json::pairs(out@);
        let pair = (v[i].0.clone(), v[i].1.clone());
        out.push(pair);
        assert(json::pairs(out@) =~= before.push((pair.0@, pair.1@)));
        i += 1;
    }
    assert(json::pairs(v@).take(v@.len() as int) =~= json::pairs(v@));
    out
}

/// How a manifest says that the workspace is stored.
pub open spec fn method_in(raw: Seq<char>) -> Option<WorkspaceMethod> {
    match json::string_in(raw, "workspace_method"@) {
        Some(s) => method_of(s),
        None => None,
    }
}

/// The scratch files that a manifest lists.
pub open spec fn files_in(raw: Seq<char>) -> Seq<(Seq<char>, Seq<char>)> {
    match json::records_in(raw, "tmp_files"@, "original"@, "stored"@) {
        Some(v) => json::full_records(v),
        None => Seq::empty(),
    }
}

/// What a restore needs to know, given what a manifest says: what is wrong with it,
/// if anything, and else the method and the scratch files in it.
pub fn manifest_contents(
    fault: Option<String>,
    method: Option<String>,
    files: Option<Vec<(Option<String>, Option<String>)>>,
) -> (r: Result<Contents, String>)
    ensures
        match fault {
            Some(f) => r is Err && r->Err_0@ == "parse manifest: "@ + f@,
            None => match method {
                Some(s) => match method_of(s@) {
                    Some(m) => r is Ok && r->Ok_0.method == m && json::pairs(r->Ok_0.tmp_files@)
                        == (match files {
                        Some(v) => json::full_records(json::records(v@)),
                        None => Seq::empty(),
                    }),
                    None => r is Err && r->Err_0@ == "manifest missing/invalid workspace_method"@,
                },
                None => r is Err && r->Err_0@ == "manifest missing/invalid workspace_method"@,
            },
        },
{
    if let Some(f) = fault {
        return Err(text::cat2("parse manifest: ", f.as_str()));
    }
    let method = match method {
        Some(s) => WorkspaceMethod::from_str(s.as_str()),
        None => None,
    };
    let method = match method {
        Some(m) => m,
        None => return Err("manifest missing/invalid workspace_method".to_owned()),
    };
    let tmp_files = match files {
        Some(v) => json::keep_full(v),
        None => {
            let v: Vec<(String, String)> = Vec::new();
            assert(json::pairs(v@) =~= Seq::<(Seq<char>, Seq<char>)>::empty());
            v
        },
    };
    Ok(Contents { method, tmp_files })
}

/// Reads a manifest.
pub fn read_manifest(raw: &str) -> (r: Result<Contents, String>)
    ensures
        match r {
            Ok(c) => json::fault_in(raw@) is None && method_in(raw@) == Some(c.method)
                && json::pairs(c.tmp_files@) == files_in(raw@),
            Err(e) => match json::fault_in(raw@) {
                Some(f) => e@ == "parse manifest: "@ + f,
                None => method_in(raw@) is None && e@ == "manifest missing/invalid workspace_method"@,
            },
        },
{
    let method = json::string(raw, "workspace_method");
    let files = json::table(raw, "tmp_files", "original", "stored");
    manifest_contents(json::fault(raw), method, files)
}

/// What a restore is told by a manifest is what the checkpoint recorded: how the
/// workspace is stored, and each scratch file with its place. `raw` is the manifest
/// of `m` as [`write_manifest`] gives it, `r` what [`read_manifest`] makes of it.
pub proof fn law_manifest_round_trip(m: Manifest, raw: Seq<char>, r: Result<Contents, String>)
    requires
        json::fault_in(raw) is None,
        method_in(raw) == Some(m.method),
        files_in(raw) == json::pairs(m.tmp_files@),
        match r {
            Ok(c) => method_in(raw) == Some(c.method) && json::pairs(c.tmp_files@) == files_in(raw),
            Err(_) => json::fault_in(raw) is Some || method_in(raw) is None,
        },
    ensures
        r matches Ok(c) && c.method == m.method && json::pairs(c.tmp_files@) == json::pairs(
            m.tmp_files@,
        ),
{
}

/// Making a checkpoint. It is built under another name, and gets its own at the
/// end.
#[derive(Clone, Copy, Debug, PartialEq, Eq, Structural)]
pub enum Checkpointing {
    /// Make the directory of all checkpoints.
    MakeRoot,
    /// See that there is room.
    CheckQuota,
    /// Remove what is left of an earlier try.
    ClearStaging,
    /// Make the directory to build in.
    MakeStaging,
    /// See whether there is a workspace.
    AskWorkspace,
    /// Make an empty one instead.
    MakeEmpty,
    /// Clone the workspace; no where the filesystem cannot.
    CowCopy,
    /// Remove what was cloned of it.
    ClearPartial,
    /// Archive the workspace instead.
    TarCreate,
    /// Make the directory of the scratch files.
    MakeTmp,
    /// Copy the scratch files.
    CopyFiles,
    /// Write what the checkpoint says of itself.
    WriteManifest,
    /// Remove what has the name of the checkpoint.
    ClearFinal,
    /// Give the checkpoint its name.
    Publish,
    /// The checkpoint is made.
    Done,
    /// It is not.
    Failed,
}

impl Plan for Checkpointing {
    open spec fn next(self, r: Reply) -> Self {
        match self {
            Checkpointing::MakeRoot => match r {
                Reply::Error => Checkpointing::Failed,
                _ => Checkpointing::CheckQuota,
            },
            Checkpointing::CheckQuota => match r {
                Reply::Error => Checkpointing::Failed,
                _ => Checkpointing::ClearStaging,
            },
            Checkpointing::ClearStaging => Checkpointing::MakeStaging,
            Checkpointing::MakeStaging => match r {
                Reply::Error => Checkpointing::Failed,
                _ => Checkpointing::AskWorkspace,
            },
            Checkpointing::AskWorkspace => match r {
                Reply::Yes => Checkpointing::CowCopy,
                Reply::No => Checkpointing::MakeEmpty,
                Reply::Error => Checkpointing::Failed,
            },
            Checkpointing::MakeEmpty => match r {
                Reply::Error => Checkpointing::Failed,
                _ => Checkpointing::MakeTmp,
            },
            Checkpointing::CowCopy => match r {
                Reply::Yes => Checkpointing::MakeTmp,
                _ => Checkpointing::ClearPartial,
            },
            Checkpointing::ClearPartial => Checkpointing::TarCreate,
            Checkpointing::TarCreate => match r {
                Reply::Error => Checkpointing::Failed,
                _ => Checkpointing::MakeTmp,
            },
            Checkpointing::MakeTmp => match r {
                Reply::Error => Checkpointing::Failed,
                _ => Checkpointing::CopyFiles,
            },
            Checkpointing::CopyFiles => match r {
                Reply::Error => Checkpointing::Failed,
                _ => Checkpointing::WriteManifest,
            },
            Checkpointing::WriteManifest => match r {
                Reply::Error => Checkpointing::Failed,
                _ => Checkpointing::ClearFinal,
            },
            Checkpointing::ClearFinal => Checkpointing::Publish,
            Checkpointing::Publish => match r {
                Reply::Error => Checkpointing::Failed,
                _ => Checkpointing::Done,
            },
            Checkpointing::Done => Checkpointing::Done,
            Checkpointing::Failed => Checkpointing::Failed,
        }
    }

    open spec fn lenient(self) -> bool {
        self == Checkpointing::ClearStaging || self == Checkpointing::CowCopy
            || self == Checkpointing::ClearPartial || self == Checkpointing::ClearFinal
    }

    open spec fn ended(self) -> bool {
        self == Checkpointing::Done || self == Checkpointing::Failed
    }

    open spec fn doomed(self) -> bool {
        self == Checkpointing::Failed
    }

    open spec fn left(self) -> nat {
        match self {
            Checkpointing::MakeRoot => 13,
            Checkpointing::CheckQuota => 12,
            Checkpointing::ClearStaging => 11,
            Checkpointing::MakeStaging => 10,
            Checkpointing::AskWorkspace => 9,
            Checkpointing::MakeEmpty => 6,
            Checkpointing::CowCopy => 8,
            Checkpointing::ClearPartial => 7,
            Checkpointing::TarCreate => 6,
            Checkpointing::MakeTmp => 5,
            Checkpointing::CopyFiles => 4,
            Checkpointing::WriteManifest => 3,
            Checkpointing::ClearFinal => 2,
            Checkpointing::Publish => 1,
            _ => 0,
        }
    }

    fn step(self, r: Reply) -> (p: Self) {
        match self {
            Checkpointing::MakeRoot => match r {
                Reply::Error => Checkpointing::Failed,
                _ => Checkpointing::CheckQuota,
            },
            Checkpointing::CheckQuota => match r {
                Reply::Error => Checkpointing::Failed,
                _ => Checkpointing::ClearStaging,
            },
            Checkpointing::ClearStaging => Checkpointing::MakeStaging,
            Checkpointing::MakeStaging => match r {
                Reply::Error => Checkpointing::Failed,
                _ => Checkpointing::AskWorkspace,
            },
            Checkpointing::AskWorkspace => match r {
                Reply::Yes => Checkpointing::CowCopy,
                Reply::No => Checkpointing::MakeEmpty,
                Reply::Error => Checkpointing::Failed,
            },
            Checkpointing::MakeEmpty => match r {
                Reply::Error => Checkpointing::Failed,
                _ => Checkpointing::MakeTmp,
            },
            Checkpointing::CowCopy => match r {
                Reply::Yes => Checkpointing::MakeTmp,
                _ => Checkpointing::ClearPartial,
            },
            Checkpointing::ClearPartial => Checkpointing::TarCreate,
            Checkpointing::TarCreate => match r {
                Reply::Error => Checkpointing::Failed,
                _ => Checkpointing::MakeTmp,
            },
            Checkpointing::MakeTmp => match r {
                Reply::Error => Checkpointing::Failed,
                _ => Checkpointing::CopyFiles,
            },
            Checkpointing::CopyFiles => match r {
                Reply::Error => Checkpointing::Failed,
                _ => Checkpointing::WriteManifest,
            },
            Checkpointing::WriteManifest => match r {
                Reply::Error => Checkpointing::Failed,
                _ => Checkpointing::ClearFinal,
            },
            Checkpointing::ClearFinal => Checkpointing::Publish,
            Checkpointing::Publish => match r {
                Reply::Error => Checkpointing::Failed,
                _ => Checkpointing::Done,
            },
            Checkpointing::Done => Checkpointing::Done,
            Checkpointing::Failed => Checkpointing::Failed,
        }
    }

    fn is_lenient(self) -> (b: bool) {
        match self {
            Checkpointing::ClearStaging | Checkpointing::CowCopy | Checkpointing::ClearPartial
            | Checkpointing::ClearFinal => true,
            _ => false,
        }
    }

    proof fn lemma_ends(self, r: Reply) {
    }
}

/// A checkpoint gets its name only once it is complete: the workspace and the scratch
/// files were copied and the manifest was written, each without failure. Nothing is
/// written before there was room.
pub proof fn law_only_complete_checkpoints_are_published(replies: Seq<Reply>)
    ensures
        ({
            let p = Checkpointing::MakeRoot;
            let end = plan::reached(p, replies);
            &&& plan::does(p, replies, Checkpointing::ClearStaging)
                ==> plan::manages(p, replies, Checkpointing::CheckQuota)
            &&& plan::does(p, replies, Checkpointing::Publish)
                ==> plan::manages(p, replies, Checkpointing::MakeEmpty)
                || plan::gets(p, replies, Checkpointing::CowCopy, Reply::Yes)
                || plan::manages(p, replies, Checkpointing::TarCreate)
            &&& plan::does(p, replies, Checkpointing::Publish)
                ==> plan::manages(p, replies, Checkpointing::MakeTmp)
            &&& plan::does(p, replies, Checkpointing::Publish)
                ==> plan::manages(p, replies, Checkpointing::CopyFiles)
            &&& plan::does(p, replies, Checkpointing::Publish)
                ==> plan::manages(p, replies, Checkpointing::WriteManifest)
            &&& end == Checkpointing::Done ==> plan::manages(p, replies, Checkpointing::Publish)
        }),
{
    let p = Checkpointing::MakeRoot;
    plan::lemma_way_in(
        p,
        replies,
        |x: Checkpointing|
            x != Checkpointing::MakeRoot && x != Checkpointing::CheckQuota
                && x != Checkpointing::Failed,
        plan::managing(Checkpointing::CheckQuota),
    );
    plan::lemma_way_in(
        p,
        replies,
        |x: Checkpointing|
            x == Checkpointing::MakeTmp || x == Checkpointing::CopyFiles
                || x == Checkpointing::WriteManifest || x == Checkpointing::ClearFinal
                || x == Checkpointing::Publish || x == Checkpointing::Done,
        plan::either(
            plan::managing(Checkpointing::MakeEmpty),
            plan::either(
                plan::getting(Checkpointing::CowCopy, Reply::Yes),
                plan::managing(Checkpointing::TarCreate),
            ),
        ),
    );
    plan::lemma_either(
        p,
        replies,
        plan::managing(Checkpointing::MakeEmpty),
        plan::either(plan::getting(Checkpointing::CowCopy, Reply::Yes), plan::managing(Checkpointing::TarCreate)),
    );
    plan::lemma_either(
        p,
        replies,
        plan::getting(Checkpointing::CowCopy, Reply::Yes),
        plan::managing(Checkpointing::TarCreate),
    );
    plan::lemma_way_in(
        p,
        replies,
        |x: Checkpointing|
            x == Checkpointing::CopyFiles || x == Checkpointing::WriteManifest
                || x == Checkpointing::ClearFinal || x == Checkpointing::Publish
                || x == Checkpointing::Done,
        plan::managing(Checkpointing::MakeTmp),
    );
    plan::lemma_way_in(
        p,
        replies,
        |x: Checkpointing|
            x == Checkpointing::WriteManifest || x == Checkpointing::ClearFinal
                || x == Checkpointing::Publish || x == Checkpointing::Done,
        plan::managing(Checkpointing::CopyFiles),
    );
    plan::lemma_way_in(
        p,
        replies,
        |x: Checkpointing|
            x == Checkpointing::ClearFinal || x == Checkpointing::Publish
                || x == Checkpointing::Done,
        plan::managing(Checkpointing::WriteManifest),
    );
    plan::lemma_way_in(
        p,
        replies,
        |x: Checkpointing| x == Checkpointing::Done,
        plan::managing(Checkpointing::Publish),
    );
}

/// How a failure to make a checkpoint reads. The phases that are not here report in
/// their own words or are never reported.
pub open spec fn checkpoint_fault(p: Checkpointing, why: Seq<char>) -> Seq<char> {
    match p {
        Checkpointing::MakeRoot => "create checkpoint root: "@ + why,
        Checkpointing::MakeStaging => "create staging dir: "@ + why,
        Checkpointing::MakeEmpty => "create empty workspace: "@ + why,
        Checkpointing::MakeTmp => "create tmp dir: "@ + why,
        Checkpointing::WriteManifest => "write manifest: "@ + why,
        Checkpointing::Publish => "publish checkpoint: "@ + why,
        _ => why,
    }
}

impl Checkpointing {
    /// How a failure of this phase reads.
    pub fn fault(self, why: &str) -> (r: String)
        ensures
            r@ == checkpoint_fault(self, why@),
    {
        match self {
            Checkpointing::MakeRoot => text::cat2("create checkpoint root: ", why),
            Checkpointing::MakeStaging => text::cat2("create staging dir: ", why),
            Checkpointing::MakeEmpty => text::cat2("create empty workspace: ", why),
            Checkpointing::MakeTmp => text::cat2("create tmp dir: ", why),
            Checkpointing::WriteManifest => text::cat2("write manifest: ", why),
            Checkpointing::Publish => text::cat2("publish checkpoint: ", why),
            _ => why.to_owned(),
        }
    }

    /// How the workspace is stored, once it is: as an archive where it was archived.
    pub fn method(self) -> (r: WorkspaceMethod)
        ensures
            r == (if self == Checkpointing::TarCreate {
                WorkspaceMethod::Tar
            } else {
                WorkspaceMethod::Cow
            }),
    {
        match self {
            Checkpointing::TarCreate => WorkspaceMethod::Tar,
            _ => WorkspaceMethod::Cow,
        }
    }
}

/// How a scratch file that could not be copied is reported.
pub fn copy_fault(path: &str, why: &str) -> (r: String)
    ensures
        r@ == "copy "@ + path@ + ": "@ + why@,
{
    text::cat4("copy ", path, ": ", why)
}

/// Restoring a checkpoint whose id is safe. The workspace is restored beside the
/// live one and then takes its place.
#[derive(Clone, Copy, Debug, PartialEq, Eq, Structural)]
pub enum Restoring {
    /// See that the checkpoint is there.
    AskDir,
    /// Read what it says of itself.
    ReadManifest,
    /// Understand it.
    ParseManifest,
    /// See that the workspace is in a directory.
    AskParent,
    /// Remove what is left of an earlier try.
    ClearStage,
    /// Remove a workspace that was put aside earlier.
    ClearOld,
    /// See whether the workspace is stored as a tree.
    AskCow,
    /// Clone the tree.
    CowCopy,
    /// Make the directory to restore to.
    MakeStage,
    /// Remove what is left of an earlier unpacking.
    ClearUntar,
    /// Make a directory to unpack in.
    MakeUntar,
    /// Start to unpack the archive.
    Unpack,
    /// See that it was unpacked.
    CheckUnpacked,
    /// Remove what was unpacked.
    DropUntar,
    /// Find the one directory in it.
    FindInner,
    /// Move it to where it is restored to.
    PlaceInner,
    /// Remove the directory it was unpacked in.
    ClearUnpacked,
    /// Count what was restored.
    Count,
    /// See whether there is a live workspace.
    AskLive,
    /// Put the restored workspace into place; nothing is there.
    SwapIn,
    /// Put the live workspace aside.
    MoveAside,
    /// Put the restored workspace into its place.
    Swap,
    /// Put the live workspace back.
    RollBack,
    /// Remove the workspace that was put aside.
    DropOld,
    /// Remove the scratch files that are there.
    RemoveScratch,
    /// Copy the scratch files back.
    CopyScratch,
    /// The checkpoint is restored.
    Done,
    /// It is not.
    Failed,
}

impl Plan for Restoring {
    open spec fn next(self, r: Reply) -> Self {
        match self {
            Restoring::AskDir => match r {
                Reply::Error => Restoring::Failed,
                _ => Restoring::ReadManifest,
            },
            Restoring::ReadManifest => match r {
                Reply::Error => Restoring::Failed,
                _ => Restoring::ParseManifest,
            },
            Restoring::ParseManifest => match r {
                Reply::Error => Restoring::Failed,
                _ => Restoring::AskParent,
            },
            Restoring::AskParent => match r {
                Reply::Error => Restoring::Failed,
                _ => Restoring::ClearStage,
            },
            Restoring::ClearStage => Restoring::ClearOld,
            Restoring::ClearOld => Restoring::AskCow,
            Restoring::AskCow => match r {
                Reply::Yes => Restoring::CowCopy,
                Reply::No => Restoring::MakeStage,
                Reply::Error => Restoring::Failed,
            },
            Restoring::CowCopy => match r {
                Reply::Error => Restoring::Failed,
                _ => Restoring::Count,
            },
            Restoring::MakeStage => match r {
                Reply::Error => Restoring::Failed,
                _ => Restoring::ClearUntar,
            },
            Restoring::ClearUntar => Restoring::MakeUntar,
            Restoring::MakeUntar => match r {
                Reply::Error => Restoring::Failed,
                _ => Restoring::Unpack,
            },
            Restoring::Unpack => match r {
                Reply::Error => Restoring::Failed,
                _ => Restoring::CheckUnpacked,
            },
            Restoring::CheckUnpacked => match r {
                Reply::Error => Restoring::DropUntar,
                _ => Restoring::FindInner,
            },
            Restoring::DropUntar => Restoring::Failed,
            Restoring::FindInner => match r {
                Reply::Error => Restoring::Failed,
                _ => Restoring::PlaceInner,
            },
            Restoring::PlaceInner => match r {
                Reply::Error => Restoring::Failed,
                _ => Restoring::ClearUnpacked,
            },
            Restoring::ClearUnpacked => Restoring::Count,
            Restoring::Count => Restoring::AskLive,
            Restoring::AskLive => match r {
                Reply::Yes => Restoring::MoveAside,
                Reply::No => Restoring::SwapIn,
                Reply::Error => Restoring::Failed,
            },
            Restoring::SwapIn => match r {
                Reply::Error => Restoring::Failed,
                _ => Restoring::RemoveScratch,
            },
            Restoring::MoveAside => match r {
                Reply::Error => Restoring::Failed,
                _ => Restoring::Swap,
            },
            Restoring::Swap => match r {
                Reply::Error => Restoring::RollBack,
                _ => Restoring::DropOld,
            },
            Restoring::RollBack => Restoring::Failed,
            Restoring::DropOld => Restoring::RemoveScratch,
            Restoring::RemoveScratch => Restoring::CopyScratch,
            Restoring::CopyScratch => Restoring::Done,
            Restoring::Done => Restoring::Done,
            Restoring::Failed => Restoring::Failed,
        }
    }

    open spec fn lenient(self) -> bool {
        self == Restoring::ClearStage || self == Restoring::ClearOld
            || self == Restoring::ClearUntar || self == Restoring::DropUntar
            || self == Restoring::ClearUnpacked || self == Restoring::Count
            || self == Restoring::RollBack || self == Restoring::DropOld
            || self == Restoring::RemoveScratch || self == Restoring::CopyScratch
    }

    open spec fn ended(self) -> bool {
        self == Restoring::Done || self == Restoring::Failed
    }

    open spec fn doomed(self) -> bool {
        self == Restoring::DropUntar || self == Restoring::RollBack || self == Restoring::Failed
    }

    open spec fn left(self) -> nat {
        match self {
            Restoring::AskDir => 22,
            Restoring::ReadManifest => 21,
            Restoring::ParseManifest => 20,
            Restoring::AskParent => 19,
            Restoring::ClearStage => 18,
            Restoring::ClearOld => 17,
            Restoring::AskCow => 16,
            Restoring::CowCopy => 8,
            Restoring::MakeStage => 15,
            Restoring::ClearUntar => 14,
            Restoring::MakeUntar => 13,
            Restoring::Unpack => 12,
            Restoring::CheckUnpacked => 11,
            Restoring::DropUntar => 1,
            Restoring::FindInner => 10,
            Restoring::PlaceInner => 9,
            Restoring::ClearUnpacked => 8,
            Restoring::Count => 7,
            Restoring::AskLive => 6,
            Restoring::SwapIn => 3,
            Restoring::MoveAside => 5,
            Restoring::Swap => 4,
            Restoring::RollBack => 1,
            Restoring::DropOld => 3,
            Restoring::RemoveScratch => 2,
            Restoring::CopyScratch => 1,
            _ => 0,
        }
    }

    fn step(self, r: Reply) -> (p: Self) {
        match self {
            Restoring::AskDir => match r {
                Reply::Error => Restoring::Failed,
                _ => Restoring::ReadManifest,
            },
            Restoring::ReadManifest => match r {
                Reply::Error => Restoring::Failed,
                _ => Restoring::ParseManifest,
            },
            Restoring::ParseManifest => match r {
                Reply::Error => Restoring::Failed,
                _ => Restoring::AskParent,
            },
            Restoring::AskParent => match r {
                Reply::Error => Restoring::Failed,
                _ => Restoring::ClearStage,
            },
            Restoring::ClearStage => Restoring::ClearOld,
            Restoring::ClearOld => Restoring::AskCow,
            Restoring::AskCow => match r {
                Reply::Yes => Restoring::CowCopy,
                Reply::No => Restoring::MakeStage,
                Reply::Error => Restoring::Failed,
            },
            Restoring::CowCopy => match r {
                Reply::Error => Restoring::Failed,
                _ => Restoring::Count,
            },
            Restoring::MakeStage => match r {
                Reply::Error => Restoring::Failed,
                _ => Restoring::ClearUntar,
            },
            Restoring::ClearUntar => Restoring::MakeUntar,
            Restoring::MakeUntar => match r {
                Reply::Error => Restoring::Failed,
                _ => Restoring::Unpack,
            },
            Restoring::Unpack => match r {
                Reply::Error => Restoring::Failed,
                _ => Restoring::CheckUnpacked,
            },
            Restoring::CheckUnpacked => match r {
                Reply::Error => Restoring::DropUntar,
                _ => Restoring::FindInner,
            },
            Restoring::DropUntar => Restoring::Failed,
            Restoring::FindInner => match r {
                Reply::Error => Restoring::Failed,
                _ => Restoring::PlaceInner,
            },
            Restoring::PlaceInner => match r {
                Reply::Error => Restoring::Failed,
                _ => Restoring::ClearUnpacked,
            },
            Restoring::ClearUnpacked => Restoring::Count,
            Restoring::Count => Restoring::AskLive,
            Restoring::AskLive => match r {
                Reply::Yes => Restoring::MoveAside,
                Reply::No => Restoring::SwapIn,
                Reply::Error => Restoring::Failed,
            },
            Restoring::SwapIn => match r {
                Reply::Error => Restoring::Failed,
                _ => Restoring::RemoveScratch,
            },
            Restoring::MoveAside => match r {
                Reply::Error => Restoring::Failed,
                _ => Restoring::Swap,
            },
            Restoring::Swap => match r {
                Reply::Error => Restoring::RollBack,
                _ => Restoring::DropOld,
            },
            Restoring::RollBack => Restoring::Failed,
            Restoring::DropOld => Restoring::RemoveScratch,
            Restoring::RemoveScratch => Restoring::CopyScratch,
            Restoring::CopyScratch => Restoring::Done,
            Restoring::Done => Restoring::Done,
            Restoring::Failed => Restoring::Failed,
        }
    }

    fn is_lenient(self) -> (b: bool) {
        match self {
            Restoring::ClearStage | Restoring::ClearOld | Restoring::ClearUntar
            | Restoring::DropUntar | Restoring::ClearUnpacked | Restoring::Count
            | Restoring::RollBack | Restoring::DropOld | Restoring::RemoveScratch
            | Restoring::CopyScratch => true,
            _ => false,
        }
    }

    proof fn lemma_ends(self, r: Reply) {
    }
}

/// Where the live workspace is in a phase.
#[derive(Clone, Copy, Debug, PartialEq, Eq, Structural)]
pub enum Live {
    /// Where it belongs, as it was before.
    InPlace,
    /// Put aside.
    Aside,
    /// Replaced by the restored one.
    Replaced,
}

/// Where the live workspace is before a phase.
pub open spec fn live(p: Restoring) -> Live {
    match p {
        Restoring::Swap | Restoring::RollBack => Live::Aside,
        Restoring::DropOld | Restoring::RemoveScratch | Restoring::CopyScratch | Restoring::Done =>
            Live::Replaced,
        _ => Live::InPlace,
    }
}

/// The live workspace is never lost. It is put aside only once its replacement is
/// complete; where the replacement cannot take its place it is put back; it is
/// removed only once it was replaced; and scratch files are touched only then.
pub proof fn law_live_workspace_is_never_lost(replies: Seq<Reply>)
    ensures
        ({
            let p = Restoring::AskDir;
            let end = plan::reached(p, replies);
            &&& plan::does(p, replies, Restoring::MoveAside)
                ==> plan::manages(p, replies, Restoring::CowCopy)
                || plan::does(p, replies, Restoring::ClearUnpacked)
            &&& plan::does(p, replies, Restoring::ClearUnpacked)
                ==> plan::manages(p, replies, Restoring::PlaceInner)
            &&& end.ended() && plan::manages(p, replies, Restoring::MoveAside)
                ==> plan::manages(p, replies, Restoring::Swap)
                || plan::does(p, replies, Restoring::RollBack)
            &&& plan::does(p, replies, Restoring::DropOld)
                ==> plan::manages(p, replies, Restoring::Swap)
            &&& plan::does(p, replies, Restoring::RemoveScratch)
                || plan::does(p, replies, Restoring::CopyScratch)
                ==> plan::manages(p, replies, Restoring::Swap)
                || plan::manages(p, replies, Restoring::SwapIn)
            &&& plan::manages(p, replies, Restoring::Swap)
                || plan::manages(p, replies, Restoring::SwapIn)
                ==> live(end) == Live::Replaced
            &&& end == Restoring::Done
                ==> plan::manages(p, replies, Restoring::Swap)
                || plan::manages(p, replies, Restoring::SwapIn)
        }),
{
    let p = Restoring::AskDir;
    plan::lemma_way_in(
        p,
        replies,
        |x: Restoring|
            x == Restoring::Count || x == Restoring::AskLive || x == Restoring::SwapIn
                || x == Restoring::MoveAside || x == Restoring::Swap
                || x == Restoring::RollBack || x == Restoring::DropOld
                || x == Restoring::RemoveScratch || x == Restoring::CopyScratch
                || x == Restoring::Done,
        plan::either(plan::managing(Restoring::CowCopy), plan::doing(Restoring::ClearUnpacked)),
    );
    plan::lemma_either(
        p,
        replies,
        plan::managing(Restoring::CowCopy),
        plan::doing(Restoring::ClearUnpacked),
    );
    plan::lemma_way_in(
        p,
        replies,
        |x: Restoring| x == Restoring::ClearUnpacked,
        plan::managing(Restoring::PlaceInner),
    );
    plan::lemma_way_out(
        p,
        replies,
        plan::managing(Restoring::MoveAside),
        |x: Restoring| x == Restoring::Swap || x == Restoring::RollBack,
        plan::either(plan::managing(Restoring::Swap), plan::doing(Restoring::RollBack)),
    );
    plan::lemma_either(
        p,
        replies,
        plan::managing(Restoring::Swap),
        plan::doing(Restoring::RollBack),
    );
    plan::lemma_way_in(
        p,
        replies,
        |x: Restoring| x == Restoring::DropOld,
        plan::managing(Restoring::Swap),
    );
    plan::lemma_way_in(
        p,
        replies,
        |x: Restoring|
            x == Restoring::DropOld || x == Restoring::RemoveScratch
                || x == Restoring::CopyScratch || x == Restoring::Done,
        plan::either(plan::managing(Restoring::Swap), plan::managing(Restoring::SwapIn)),
    );
    plan::lemma_either(
        p,
        replies,
        plan::managing(Restoring::Swap),
        plan::managing(Restoring::SwapIn),
    );
    plan::lemma_either(
        p,
        replies,
        plan::managing(Restoring::Swap),
        plan::managing(Restoring::SwapIn),
    );
    plan::lemma_stays(
        p,
        replies,
        plan::either(plan::managing(Restoring::Swap), plan::managing(Restoring::SwapIn)),
        |x: Restoring|
            x == Restoring::DropOld || x == Restoring::RemoveScratch
                || x == Restoring::CopyScratch || x == Restoring::Done,
    );
    plan::lemma_way_in(
        p,
        replies,
        |x: Restoring|
            x == Restoring::DropOld || x == Restoring::RemoveScratch
                || x == Restoring::CopyScratch || x == Restoring::Done,
        plan::either(plan::managing(Restoring::Swap), plan::managing(Restoring::SwapIn)),
    );
    plan::lemma_either(
        p,
        replies,
        plan::managing(Restoring::Swap),
        plan::managing(Restoring::SwapIn),
    );
}

/// How a failure to restore a checkpoint reads. The phases that are not here report
/// in their own words or are never reported.
pub open spec fn restore_fault(p: Restoring, why: Seq<char>) -> Seq<char> {
    match p {
        Restoring::AskDir => "no such checkpoint: "@ + why,
        Restoring::ReadManifest => "read manifest: "@ + why,
        Restoring::AskParent => "workspace has no parent directory"@,
        Restoring::CowCopy => "reflink restore of workspace failed"@,
        Restoring::MakeStage => "create restore stage: "@ + why,
        Restoring::MakeUntar => "create untar dir: "@ + why,
        Restoring::FindInner => why,
        Restoring::PlaceInner => "place extracted workspace: "@ + why,
        Restoring::MoveAside => "move live workspace: "@ + why,
        Restoring::SwapIn | Restoring::Swap => "swap workspace into place: "@ + why,
        _ => why,
    }
}

impl Restoring {
    /// How a failure of this phase reads.
    pub fn fault(self, why: &str) -> (r: String)
        ensures
            r@ == restore_fault(self, why@),
    {
        match self {
            Restoring::AskDir => text::cat2("no such checkpoint: ", why),
            Restoring::ReadManifest => text::cat2("read manifest: ", why),
            Restoring::AskParent => "workspace has no parent directory".to_owned(),
            Restoring::CowCopy => "reflink restore of workspace failed".to_owned(),
            Restoring::MakeStage => text::cat2("create restore stage: ", why),
            Restoring::MakeUntar => text::cat2("create untar dir: ", why),
            Restoring::FindInner => why.to_owned(),
            Restoring::PlaceInner => text::cat2("place extracted workspace: ", why),
            Restoring::MoveAside => text::cat2("move live workspace: ", why),
            Restoring::SwapIn | Restoring::Swap => text::cat2("swap workspace into place: ", why),
            _ => why.to_owned(),
        }
    }
}

/// The directory that an archive held: the first entry of what was unpacked.
pub fn unpacked_entry(listing: &Result<Option<String>, String>) -> (r: Result<String, String>)
    ensures
        match *listing {
            Err(why) => r is Err && r->Err_0@ == "read untar dir: "@ + why@,
            Ok(None) => r is Err && r->Err_0@ == "empty archive"@,
            Ok(Some(p)) => r is Ok && r->Ok_0@ == p@,
        },
{
    match listing {
        Err(why) => Err(text::cat2("read untar dir: ", why.as_str())),
        Ok(None) => Err("empty archive".to_owned()),
        Ok(Some(p)) => Ok(p.clone()),
    }
}

/// How many entries a restore brought back: those of the workspace, and the scratch
/// files that could be copied.
pub fn restored_count(workspace: u64, copied: u64) -> (r: u64)
    requires
        workspace + copied <= u64::MAX,
    ensures
        r == workspace + copied,
{
    workspace + copied
}

/// The command that clones a tree, where the filesystem can.
pub fn cow_copy(src: &str, dst: &str) -> (r: Cmd)
    ensures
        r@ == command::cmd("cp"@, seq!["--reflink=always"@, "-a"@, src@, dst@], "cp"@, "cp"@),
        deeds::cp(r@) == Some(Deed::Share { source: src@, target: dst@ }),
{
    proof {
        deeds::lemma_cp();
    }
    let r = command::command("cp", &["--reflink=always", "-a", src, dst], "cp", "cp");
    assert(r@.args =~= seq!["--reflink=always"@, "-a"@, src@, dst@]);
    r
}

/// The command that archives the directory `name` of `parent`.
pub fn tar_create(archive: &str, parent: &str, name: &str) -> (r: Cmd)
    ensures
        r@ == command::cmd("tar"@, seq!["-czf"@, archive@, "-C"@, parent@, name@], "tar"@, "tar create"@),
        deeds::tar(r@) == Some(Deed::Pack { archive: archive@, dir: parent@, name: name@ }),
{
    proof {
        deeds::lemma_tar();
    }
    let r = command::command("tar", &["-czf", archive, "-C", parent, name], "tar", "tar create");
    assert(r@.args =~= seq!["-czf"@, archive@, "-C"@, parent@, name@]);
    r
}

/// The command that unpacks an archive into a directory.
pub fn tar_extract(archive: &str, dest: &str) -> (r: Cmd)
    ensures
        r@ == command::cmd("tar"@, seq!["-xzf"@, archive@, "-C"@, dest@], "tar"@, "tar extract"@),
        deeds::tar(r@) == Some(Deed::Unpack { archive: archive@, dir: dest@ }),
{
    proof {
        deeds::lemma_tar();
    }
    let r = command::command("tar", &["-xzf", archive, "-C", dest], "tar", "tar extract");
    assert(r@.args =~= seq!["-xzf"@, archive@, "-C"@, dest@]);
    r
}

/// Refuses to go on where an archiving command could not be started.
pub fn tar_spawned(o: &Outcome) -> (r: Result<bool, String>)
    ensures
        match *o {
            Outcome::NotSpawned(why) => r is Err && r->Err_0@ == "spawn tar: "@ + why@,
            Outcome::Exited(_) => r == Ok::<bool, String>(true),
        },
{
    match o {
        Outcome::NotSpawned(why) => Err(text::cat2("spawn tar: ", why.as_str())),
        Outcome::Exited(_) => Ok(true),
    }
}

/// The directory that a workspace is in, and its name there, for an archive of it.
pub fn archived(workspace: &str) -> (r: Result<(String, String), String>)
    ensures
        match r {
            Ok((dir, name)) => paths::parent_of(workspace@) == Some(dir@) && name@ == name_of(
                workspace@,
            ),
            Err(e) => paths::parent_of(workspace@) is None && e@ == "workspace has no parent"@,
        },
{
    match paths::parent(workspace) {
        Some(dir) => Ok((dir, file_name_str(workspace))),
        None => Err("workspace has no parent".to_owned()),
    }
}

/// What to make of how an archiving command ended.
pub fn tar_result(c: &Cmd, o: &Outcome) -> (r: Result<bool, String>)
    ensures
        match *o {
            Outcome::NotSpawned(why) => r is Err && r->Err_0@ == "spawn tar: "@ + why@,
            Outcome::Exited(out) => if out.success() {
                r == Ok::<bool, String>(true)
            } else {
                r is Err && r->Err_0@ == c.label@ + ": "@ + text::trim(text::utf8_lossy(out.stderr@))
            },
        },
{
    match o {
        Outcome::NotSpawned(why) => Err(text::cat2("spawn tar: ", why.as_str())),
        Outcome::Exited(out) => {
            if out.succeeded() {
                return Ok(true);
            }
            let said = text::trimmed(text::from_utf8_lossy(&out.stderr).as_str());
            Err(text::cat3(c.label.as_str(), ": ", said.as_str()))
        },
    }
}

// --------------------------------------------------------------- fs_clean

/// Whether a scratch file may be removed: it lies below the directory of scratch
/// files, and its path does not lead upwards.
pub open spec fn may_clean(path: Seq<char>) -> bool {
    reset::is_below(path, "/tmp/"@) && !paths::components(path).contains(".."@)
}

/// Whether a scratch file may be removed.
pub fn removable(path: &str) -> (r: bool)
    ensures
        r == may_clean(path@),
{
    let c = paths::split_components(path);
    let t = paths::split_components("/tmp/");
    assert(text::views(c@).len() == c.len());
    assert(text::views(t@).len() == t.len());
    text::starts_with(path, "/tmp/") && c.len() > t.len() && !text::list_has(&c, "..")
}

/// The paths that may be removed.
pub open spec fn cleanable(v: Seq<Seq<char>>) -> Seq<Seq<char>>
    decreases v.len(),
{
    if v.len() == 0 {
        Seq::empty()
    } else if may_clean(v.last()) {
        cleanable(v.drop_last()).push(v.last())
    } else {
        cleanable(v.drop_last())
    }
}

/// The files to remove among what the patterns matched: in order, none twice, and
/// none outside the directory of scratch files.
pub fn clean_targets(found: &Vec<Found>) -> (r: Vec<String>)
    ensures
        exists|v: Seq<Seq<char>>| #[trigger]
            are_files(found@, found@.len() as int, v) && text::views(r@) == cleanable(v),
{
    let files = collect_tmp_files(found);
    let ghost v = text::views(files@);
    let mut out: Vec<String> = Vec::new();
    let mut i: usize = 0;
    assert(v.take(0) =~= Seq::<Seq<char>>::empty());
    assert(text::views(out@) =~= Seq::<Seq<char>>::empty());
    while i < files.len()
        invariant
            i <= files.len(),
            v == text::views(files@),
            text::views(out@) == cleanable(v.take(i as int)),
        decreases files.len() - i,
    {
        proof {
            assert(v.take(i + 1).drop_last() =~= v.take(i as int));
            assert(v.take(i + 1).last() == files@[i as int]@);
        }
        if removable(files[i].as_str()) {
            let s = files[i].clone();
            proof {
                text::lemma_views_push(out@, s);
            }
            out.push(s);
        }
        i += 1;
    }
    assert(v.take(v.len() as int) =~= v);
    out
}

/// No file outside the directory of scratch files is ever removed.
pub proof fn law_cleaning_is_confined(v: Seq<Seq<char>>, i: int)
    requires
        0 <= i < cleanable(v).len(),
    ensures
        may_clean(cleanable(v)[i]),
    decreases v.len(),
{
    if v.len() > 0 && i < cleanable(v.drop_last()).len() {
        law_cleaning_is_confined(v.drop_last(), i);
    }
}

} // verus!
