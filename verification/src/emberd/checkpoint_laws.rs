//! What checkpoints and restores make of the files of a machine.
//!
//! A tree of files is a map from the paths below its root to what is there. Each
//! phase of the work changes some of the trees; what the whole work makes of them is
//! what its phases make of them one after the other.
use crate::emberd::checkpoint;
use crate::emberd::checkpoint::{Checkpointing, Restoring, WorkspaceMethod};
use crate::emberd::{json, request};
use crate::path_laws;
use crate::paths;
use crate::plan;
use crate::plan::{Plan, Reply};
use crate::text;
use crate::text_laws;
use vstd::prelude::*;

verus! {

/// What is at a path of a tree.
pub enum Node {
    Dir,
    Link(Seq<char>),
    File(Seq<u8>),
}

/// What the manifest of a checkpoint says.
pub struct Listing {
    /// How the workspace is stored.
    pub method: WorkspaceMethod,
    /// Each scratch file with the name that it is kept under.
    pub files: Seq<(Seq<char>, Seq<char>)>,
}

/// A checkpoint, as far as it is there.
pub struct Stored {
    /// The workspace as a tree.
    pub tree: Option<Map<Seq<char>, Node>>,
    /// The workspace as an archive of a tree.
    pub archive: Option<Map<Seq<char>, Node>>,
    /// The scratch files, by the names that they are kept under.
    pub tmp: Map<Seq<char>, Seq<u8>>,
    /// Its manifest.
    pub manifest: Option<Listing>,
}

/// A directory for a checkpoint with nothing in it.
pub open spec fn nothing_stored() -> Stored {
    Stored { tree: None, archive: None, tmp: Map::empty(), manifest: None }
}

/// The scratch files under the names that they are kept under.
pub open spec fn copies(files: Seq<Seq<char>>, scratch: Map<Seq<char>, Seq<u8>>) -> Map<
    Seq<char>,
    Seq<u8>,
>
    decreases files.len(),
{
    if files.len() == 0 {
        Map::empty()
    } else {
        copies(files.drop_last(), scratch).insert(
            checkpoint::stored_text((files.len() - 1) as nat, files.last()),
            scratch[files.last()],
        )
    }
}

/// Each scratch file with the name that it is kept under.
pub open spec fn listed(files: Seq<Seq<char>>) -> Seq<(Seq<char>, Seq<char>)> {
    Seq::new(files.len(), |i: int| (files[i], checkpoint::stored_text(i as nat, files[i])))
}

/// The scratch files after those of a checkpoint were copied back.
pub open spec fn copied_back(
    scratch: Map<Seq<char>, Seq<u8>>,
    pairs: Seq<(Seq<char>, Seq<char>)>,
    tmp: Map<Seq<char>, Seq<u8>>,
) -> Map<Seq<char>, Seq<u8>>
    decreases pairs.len(),
{
    if pairs.len() == 0 {
        scratch
    } else {
        copied_back(scratch, pairs.drop_last(), tmp).insert(pairs.last().0, tmp[pairs.last().1])
    }
}

/// Whether a checkpoint holds a tree and scratch files, and says where.
pub open spec fn holds(
    c: Stored,
    tree: Map<Seq<char>, Node>,
    files: Seq<Seq<char>>,
    scratch: Map<Seq<char>, Seq<u8>>,
) -> bool {
    &&& c.manifest matches Some(m) && m.files == listed(files) && match m.method {
        WorkspaceMethod::Cow => c.tree == Some(tree),
        WorkspaceMethod::Tar => c.archive == Some(tree),
    }
    &&& c.tmp == copies(files, scratch)
}

// ------------------------------------------------------------------- making

/// The machine while a checkpoint is made.
pub struct Making {
    /// The workspace, where there is one.
    pub live: Option<Map<Seq<char>, Node>>,
    /// The scratch files that were found, and what they hold.
    pub files: Seq<Seq<char>>,
    pub scratch: Map<Seq<char>, Seq<u8>>,
    /// How the workspace was stored last.
    pub method: WorkspaceMethod,
    pub staging: Stored,
    pub published: Option<Stored>,
}

/// The tree that a checkpoint is to hold: that of the workspace, or an empty one.
pub open spec fn tree_of(live: Option<Map<Seq<char>, Node>>) -> Map<Seq<char>, Node> {
    match live {
        Some(t) => t,
        None => Map::empty(),
    }
}

/// What a phase makes of the machine, where it does not fail.
pub open spec fn made(w: Making, p: Checkpointing, r: Reply) -> Making {
    let s = w.staging;
    match p {
        Checkpointing::ClearStaging => Making { staging: nothing_stored(), ..w },
        Checkpointing::MakeEmpty => Making {
            staging: Stored { tree: Some(Map::empty()), ..s },
            method: WorkspaceMethod::Cow,
            ..w
        },
        Checkpointing::CowCopy => if r == Reply::Yes {
            Making { staging: Stored { tree: w.live, ..s }, method: WorkspaceMethod::Cow, ..w }
        } else {
            Making { method: WorkspaceMethod::Cow, ..w }
        },
        Checkpointing::ClearPartial => Making { staging: Stored { tree: None, ..s }, ..w },
        Checkpointing::TarCreate => Making {
            staging: Stored { archive: w.live, ..s },
            method: WorkspaceMethod::Tar,
            ..w
        },
        Checkpointing::CopyFiles => Making {
            staging: Stored { tmp: copies(w.files, w.scratch), ..s },
            ..w
        },
        Checkpointing::WriteManifest => Making {
            staging: Stored { manifest: Some(Listing { method: w.method, files: listed(w.files) }), ..s },
            ..w
        },
        Checkpointing::Publish => Making { published: Some(s), ..w },
        _ => w,
    }
}

/// Whether a run goes without failure, and its question is answered by what is so.
pub open spec fn makes_smoothly(p: Checkpointing, replies: Seq<Reply>, w: Making) -> bool
    decreases replies.len(),
{
    replies.len() == 0 || p.ended() || {
        &&& replies[0] != Reply::Error
        &&& p == Checkpointing::AskWorkspace ==> (replies[0] == Reply::Yes <==> w.live is Some)
        &&& makes_smoothly(p.next(replies[0]), replies.skip(1), made(w, p, replies[0]))
    }
}

/// The machine after a run.
pub open spec fn after_making(p: Checkpointing, replies: Seq<Reply>, w: Making) -> Making
    decreases replies.len(),
{
    if replies.len() == 0 || p.ended() {
        w
    } else {
        after_making(p.next(replies[0]), replies.skip(1), made(w, p, replies[0]))
    }
}

spec fn workspace_stored(w: Making) -> bool {
    match w.method {
        WorkspaceMethod::Cow => w.staging.tree == Some(tree_of(w.live)),
        WorkspaceMethod::Tar => w.staging.archive == Some(tree_of(w.live)),
    }
}

spec fn making_fits(p: Checkpointing, w: Making) -> bool {
    match p {
        Checkpointing::CowCopy | Checkpointing::ClearPartial | Checkpointing::TarCreate => {
            w.live is Some
        },
        Checkpointing::MakeEmpty => w.live is None,
        Checkpointing::MakeTmp | Checkpointing::CopyFiles => workspace_stored(w),
        Checkpointing::WriteManifest => workspace_stored(w) && w.staging.tmp == copies(
            w.files,
            w.scratch,
        ),
        Checkpointing::ClearFinal | Checkpointing::Publish => holds(
            w.staging,
            tree_of(w.live),
            w.files,
            w.scratch,
        ),
        Checkpointing::Done => w.published matches Some(c) && holds(
            c,
            tree_of(w.live),
            w.files,
            w.scratch,
        ),
        Checkpointing::Failed => false,
        _ => true,
    }
}

proof fn lemma_making(p: Checkpointing, replies: Seq<Reply>, w: Making)
    requires
        making_fits(p, w),
        makes_smoothly(p, replies, w),
    ensures
        ({
            let end = after_making(p, replies, w);
            &&& making_fits(plan::reached(p, replies), end)
            &&& end.live == w.live && end.files == w.files && end.scratch == w.scratch
        }),
    decreases replies.len(),
{
    if replies.len() > 0 && !p.ended() {
        lemma_making(p.next(replies[0]), replies.skip(1), made(w, p, replies[0]));
    }
}

/// A checkpoint that is made without failure holds the workspace and the scratch
/// files as they are then, and says how; the machine keeps both.
pub proof fn law_checkpoint_holds_what_is_there(replies: Seq<Reply>, w: Making)
    requires
        makes_smoothly(Checkpointing::MakeRoot, replies, w),
        replies.len() >= Checkpointing::MakeRoot.left(),
    ensures
        ({
            let end = after_making(Checkpointing::MakeRoot, replies, w);
            &&& plan::reached(Checkpointing::MakeRoot, replies) == Checkpointing::Done
            &&& end.published matches Some(c) && holds(c, tree_of(w.live), w.files, w.scratch)
            &&& end.live == w.live
            &&& end.scratch == w.scratch
        }),
{
    lemma_making(Checkpointing::MakeRoot, replies, w);
    plan::law_runs_end(Checkpointing::MakeRoot, replies);
}

// ---------------------------------------------------------------- restoring

/// The machine while a checkpoint is restored.
pub struct Machine {
    /// The checkpoint.
    pub stored: Stored,
    /// The workspace, where there is one.
    pub live: Option<Map<Seq<char>, Node>>,
    /// The live workspace, put aside.
    pub aside: Option<Map<Seq<char>, Node>>,
    /// The restored one, before it takes its place.
    pub stage: Option<Map<Seq<char>, Node>>,
    /// What was unpacked from an archive.
    pub unpacked: Option<Map<Seq<char>, Node>>,
    /// The tree whose entries were counted.
    pub counted: Option<Map<Seq<char>, Node>>,
    /// The scratch files and what they hold.
    pub scratch: Map<Seq<char>, Seq<u8>>,
}

/// How the workspace of a checkpoint is stored, by its manifest.
pub open spec fn method_of(c: Stored) -> WorkspaceMethod {
    c.manifest->0.method
}

/// What a phase makes of the machine, where it does not fail.
pub open spec fn restored(w: Machine, p: Restoring) -> Machine {
    match p {
        Restoring::ClearStage => Machine { stage: None, ..w },
        Restoring::ClearOld => Machine { aside: None, ..w },
        Restoring::CowCopy => Machine { stage: w.stored.tree, ..w },
        Restoring::MakeStage => Machine { stage: Some(Map::empty()), ..w },
        Restoring::ClearUntar | Restoring::DropUntar | Restoring::ClearUnpacked => Machine {
            unpacked: None,
            ..w
        },
        Restoring::Unpack => Machine { unpacked: w.stored.archive, ..w },
        Restoring::PlaceInner => Machine { stage: w.unpacked, ..w },
        Restoring::Count => Machine { counted: w.stage, ..w },
        Restoring::MoveAside => Machine { aside: w.live, live: None, ..w },
        Restoring::Swap | Restoring::SwapIn => Machine { live: w.stage, stage: None, ..w },
        Restoring::RollBack => Machine { live: w.aside, aside: None, ..w },
        Restoring::DropOld => Machine { aside: None, ..w },
        Restoring::RemoveScratch => Machine { scratch: Map::empty(), ..w },
        Restoring::CopyScratch => Machine {
            scratch: copied_back(w.scratch, w.stored.manifest->0.files, w.stored.tmp),
            ..w
        },
        _ => w,
    }
}

/// Whether a run goes without failure, and its questions are answered by what is so.
pub open spec fn restores_smoothly(p: Restoring, replies: Seq<Reply>, w: Machine) -> bool
    decreases replies.len(),
{
    replies.len() == 0 || p.ended() || {
        &&& replies[0] != Reply::Error
        &&& p == Restoring::AskCow ==> (replies[0] == Reply::Yes <==> method_of(w.stored)
            == WorkspaceMethod::Cow)
        &&& p == Restoring::AskLive ==> (replies[0] == Reply::Yes <==> w.live is Some)
        &&& restores_smoothly(p.next(replies[0]), replies.skip(1), restored(w, p))
    }
}

/// The machine after a run.
pub open spec fn after_restoring(p: Restoring, replies: Seq<Reply>, w: Machine) -> Machine
    decreases replies.len(),
{
    if replies.len() == 0 || p.ended() {
        w
    } else {
        after_restoring(p.next(replies[0]), replies.skip(1), restored(w, p))
    }
}

spec fn restoring_fits(p: Restoring, w: Machine, tree: Map<Seq<char>, Node>) -> bool {
    let scratch = copied_back(Map::empty(), w.stored.manifest->0.files, w.stored.tmp);
    let cow = method_of(w.stored) == WorkspaceMethod::Cow;
    &&& cow ==> w.stored.tree == Some(tree)
    &&& !cow ==> w.stored.archive == Some(tree)
    &&& match p {
        Restoring::CowCopy => cow,
        Restoring::MakeStage | Restoring::ClearUntar | Restoring::MakeUntar | Restoring::Unpack => {
            !cow
        },
        Restoring::CheckUnpacked | Restoring::FindInner | Restoring::PlaceInner => w.unpacked
            == Some(tree),
        Restoring::ClearUnpacked | Restoring::Count => w.stage == Some(tree),
        Restoring::AskLive | Restoring::MoveAside | Restoring::Swap | Restoring::SwapIn => w.stage
            == Some(tree) && w.counted == Some(tree),
        Restoring::DropOld | Restoring::RemoveScratch => w.live == Some(tree) && w.counted == Some(
            tree,
        ),
        Restoring::CopyScratch => w.live == Some(tree) && w.counted == Some(tree) && w.scratch
            == Map::<Seq<char>, Seq<u8>>::empty(),
        Restoring::Done => w.live == Some(tree) && w.counted == Some(tree) && w.scratch == scratch,
        Restoring::DropUntar | Restoring::RollBack | Restoring::Failed => false,
        _ => true,
    }
}

proof fn lemma_restoring(
    p: Restoring,
    replies: Seq<Reply>,
    w: Machine,
    tree: Map<Seq<char>, Node>,
)
    requires
        restoring_fits(p, w, tree),
        restores_smoothly(p, replies, w),
    ensures
        restoring_fits(plan::reached(p, replies), after_restoring(p, replies, w), tree),
        after_restoring(p, replies, w).stored == w.stored,
    decreases replies.len(),
{
    if replies.len() > 0 && !p.ended() {
        lemma_restoring(p.next(replies[0]), replies.skip(1), restored(w, p), tree);
    }
}

proof fn lemma_copies(files: Seq<Seq<char>>, scratch: Map<Seq<char>, Seq<u8>>, i: int)
    requires
        0 <= i < files.len(),
    ensures
        copies(files, scratch)[checkpoint::stored_text(i as nat, files[i])] == scratch[files[i]],
    decreases files.len(),
{
    let d = files.drop_last();
    if i < d.len() {
        lemma_copies(d, scratch, i);
        let last = (files.len() - 1) as nat;
        if checkpoint::stored_text(i as nat, files[i]) == checkpoint::stored_text(
            last,
            files.last(),
        ) {
            checkpoint::law_stored_names_differ(i as nat, files[i], last, files.last());
        }
    }
}

proof fn lemma_copied_back(
    files: Seq<Seq<char>>,
    n: int,
    scratch: Map<Seq<char>, Seq<u8>>,
    path: Seq<char>,
)
    requires
        0 <= n <= files.len(),
    ensures
        ({
            let back = copied_back(
                Map::empty(),
                listed(files).take(n),
                copies(files, scratch),
            );
            &&& back.dom().contains(path) <==> files.take(n).contains(path)
            &&& back.dom().contains(path) ==> back[path] == scratch[path]
        }),
    decreases n,
{
    let all = files.take(n);
    if n == 0 {
        assert(all =~= Seq::<Seq<char>>::empty());
        assert(listed(files).take(0) =~= Seq::<(Seq<char>, Seq<char>)>::empty());
    } else {
        let before = files.take(n - 1);
        lemma_copied_back(files, n - 1, scratch, path);
        lemma_copies(files, scratch, n - 1);
        assert(listed(files).take(n).drop_last() =~= listed(files).take(n - 1));
        assert(listed(files).take(n).last() == listed(files)[n - 1]);
        if all.contains(path) && path != files[n - 1] {
            let k = choose|k: int| 0 <= k < all.len() && all[k] == path;
            assert(before[k] == path);
        }
        if before.contains(path) {
            let k = choose|k: int| 0 <= k < before.len() && before[k] == path;
            assert(all[k] == path);
        }
        assert(all[n - 1] == files[n - 1]);
    }
}

/// A restore that goes without failure gives back what the checkpoint holds,
/// whatever has become of the machine since: the workspace is the tree of the
/// checkpoint, whose entries are counted; the scratch files are those of the
/// checkpoint, as many as it lists; and the checkpoint is as it was, so it can be
/// restored again.
pub proof fn law_restore_gives_back_the_checkpoint(
    replies: Seq<Reply>,
    w: Machine,
    tree: Map<Seq<char>, Node>,
    files: Seq<Seq<char>>,
    scratch: Map<Seq<char>, Seq<u8>>,
)
    requires
        holds(w.stored, tree, files, scratch),
        forall|path: Seq<char>| #[trigger] scratch.dom().contains(path) <==> files.contains(path),
        restores_smoothly(Restoring::AskDir, replies, w),
        replies.len() >= Restoring::AskDir.left(),
    ensures
        ({
            let end = after_restoring(Restoring::AskDir, replies, w);
            &&& plan::reached(Restoring::AskDir, replies) == Restoring::Done
            &&& end.live == Some(tree)
            &&& end.counted == Some(tree)
            &&& end.scratch == scratch
            &&& end.stored == w.stored
            &&& end.stored.manifest->0.files.len() == files.len()
        }),
{
    lemma_restoring(Restoring::AskDir, replies, w, tree);
    plan::law_runs_end(Restoring::AskDir, replies);
    let pairs = listed(files);
    assert(pairs.take(files.len() as int) =~= pairs);
    assert(files.take(files.len() as int) =~= files);
    let back = copied_back(Map::empty(), pairs, w.stored.tmp);
    assert forall|path: Seq<char>| #[trigger]
        back.dom().contains(path) == scratch.dom().contains(path) by {
        lemma_copied_back(files, files.len() as int, scratch, path);
    }
    assert forall|path: Seq<char>| #[trigger]
        back.dom().contains(path) implies back[path] == scratch[path] by {
        lemma_copied_back(files, files.len() as int, scratch, path);
    }
    assert(back.dom() =~= scratch.dom());
    assert(back =~= scratch);
}

/// What a checkpoint and a later restore leave is what was there at the checkpoint:
/// the workspace with every name and content, and the scratch files, whatever was
/// changed, removed or added in between.
pub proof fn law_checkpoint_then_restore(
    making: Seq<Reply>,
    w: Making,
    restoring: Seq<Reply>,
    v: Machine,
)
    requires
        makes_smoothly(Checkpointing::MakeRoot, making, w),
        making.len() >= Checkpointing::MakeRoot.left(),
        forall|path: Seq<char>| #[trigger]
            w.scratch.dom().contains(path) <==> w.files.contains(path),
        Some(v.stored) == after_making(Checkpointing::MakeRoot, making, w).published,
        restores_smoothly(Restoring::AskDir, restoring, v),
        restoring.len() >= Restoring::AskDir.left(),
    ensures
        ({
            let end = after_restoring(Restoring::AskDir, restoring, v);
            &&& plan::reached(Restoring::AskDir, restoring) == Restoring::Done
            &&& end.live == Some(tree_of(w.live))
            &&& end.scratch == w.scratch
            &&& end.stored == v.stored
        }),
{
    law_checkpoint_holds_what_is_there(making, w);
    law_restore_gives_back_the_checkpoint(restoring, v, tree_of(w.live), w.files, w.scratch);
}

/// The characters of an id are the letters and digits of ASCII, the dot, the
/// underscore and the dash.
pub proof fn law_id_characters(c: char)
    ensures
        checkpoint::id_char(c) <==> ('a' <= c && c <= 'z') || ('A' <= c && c <= 'Z') || ('0' <= c
            && c <= '9') || c == '.' || c == '_' || c == '-',
{
}

proof fn lemma_hex_char(a: nat, b: nat)
    requires
        a < 16,
        b < 16,
        text::hex_char(a) == text::hex_char(b),
    ensures
        a == b,
{
}

proof fn lemma_hex_fixed(a: nat, b: nat, width: nat)
    requires
        text::hex_fixed(a, width) == text::hex_fixed(b, width),
    ensures
        text::hex_fixed(a, width).len() == width,
        a % vstd::arithmetic::power::pow(16, width) as nat == b % vstd::arithmetic::power::pow(
            16,
            width,
        ) as nat,
    decreases width,
{
    vstd::arithmetic::power::lemma_pow0(16);
    if width > 0 {
        let w = (width - 1) as nat;
        let x = text::hex_fixed(a, width);
        let y = text::hex_fixed(b, width);
        assert(x.drop_last() =~= text::hex_fixed(a / 16, w));
        assert(y.drop_last() =~= text::hex_fixed(b / 16, w));
        assert(x.last() == text::hex_char(a % 16) && y.last() == text::hex_char(b % 16));
        lemma_hex_char(a % 16, b % 16);
        lemma_hex_fixed(a / 16, b / 16, w);
        let p = vstd::arithmetic::power::pow(16, w);
        vstd::arithmetic::power::lemma_pow_positive(16, w);
        assert(vstd::arithmetic::power::pow(16, width) == 16 * p) by {
            reveal(vstd::arithmetic::power::pow);
        }
        vstd::arithmetic::div_mod::lemma_mod_breakdown(a as int, 16, p);
        vstd::arithmetic::div_mod::lemma_mod_breakdown(b as int, 16, p);
    }
}

/// Two checkpoints that one process makes have different ids, unless it makes them in
/// the same instant, and so have those that two processes make in the same instant.
pub proof fn law_ids_differ(
    secs: u64,
    nanos: u32,
    pid: u32,
    other_secs: u64,
    other_nanos: u32,
    other_pid: u32,
)
    requires
        checkpoint::id_text(secs, nanos, pid) == checkpoint::id_text(
            other_secs,
            other_nanos,
            other_pid,
        ),
    ensures
        secs == other_secs,
        pid == other_pid ==> nanos == other_nanos,
        nanos == other_nanos ==> pid == other_pid,
{
    reveal_strlit("cp-");
    reveal_strlit("-");
    let m = (nanos ^ checkpoint::rotated(pid)) as nat;
    let n = (other_nanos ^ checkpoint::rotated(other_pid)) as nat;
    let a = text::dec(secs as nat);
    let b = text::dec(other_secs as nat);
    let x = text::hex_fixed(m, 8);
    let y = text::hex_fixed(n, 8);
    lemma_hex_fixed(m, m, 8);
    lemma_hex_fixed(n, n, 8);
    let s = checkpoint::id_text(secs, nanos, pid);
    let t = checkpoint::id_text(other_secs, other_nanos, other_pid);
    assert(s.len() == 4 + a.len() + 8 && t.len() == 4 + b.len() + 8);
    assert(s.subrange(3, 3 + a.len() as int) =~= a);
    assert(t.subrange(3, 3 + b.len() as int) =~= b);
    text::lemma_value_of_dec(secs as nat);
    text::lemma_value_of_dec(other_secs as nat);
    assert(s.skip(4 + a.len() as int) =~= x);
    assert(t.skip(4 + b.len() as int) =~= y);
    lemma_hex_fixed(m, n, 8);
    assert(vstd::arithmetic::power::pow(16, 8) == 0x1_0000_0000) by {
        reveal_with_fuel(vstd::arithmetic::power::pow, 9);
    }
    let u = checkpoint::rotated(pid);
    let v = checkpoint::rotated(other_pid);
    assert(nanos ^ u <= 0xffff_ffff && other_nanos ^ v <= 0xffff_ffff) by (bit_vector);
    assert(m < 0x1_0000_0000 && n < 0x1_0000_0000);
    vstd::arithmetic::div_mod::lemma_small_mod(m, 0x1_0000_0000);
    vstd::arithmetic::div_mod::lemma_small_mod(n, 0x1_0000_0000);
    assert(m == n);
    assert(pid == other_pid && nanos ^ ((pid << 11) | (pid >> 21)) == other_nanos ^ ((other_pid << 11)
        | (other_pid >> 21)) ==> nanos == other_nanos) by (bit_vector);
    assert(nanos == other_nanos && nanos ^ ((pid << 11) | (pid >> 21)) == other_nanos ^ ((other_pid
        << 11) | (other_pid >> 21)) ==> pid == other_pid) by (bit_vector);
}

/// In the order of scratch files, those of a directory go by their names.
pub proof fn law_files_go_by_their_names(dir: Seq<char>, x: Seq<char>, y: Seq<char>)
    requires
        path_laws::plain(x),
        path_laws::plain(y),
        text::str_less(x, y),
        dir.len() > 0 && dir[0] == '/',
    ensures
        checkpoint::path_less(paths::joined(dir, x), paths::joined(dir, y)),
{
    reveal(checkpoint::parts);
    reveal_strlit("/");
    reveal_strlit(".");
    reveal_strlit("..");
    path_laws::law_joined_name_is_last(dir, x);
    path_laws::law_joined_name_is_last(dir, y);
    let a = paths::joined(dir, x);
    let b = paths::joined(dir, y);
    assert(x[0] != '/' && y[0] != '/');
    assert(a[0] == '/' && b[0] == '/');
    let c = seq!["/"@] + paths::components(dir);
    assert(checkpoint::parts(a) =~= c.push(x));
    assert(checkpoint::parts(b) =~= c.push(y));
    if x == "/"@ {
        assert(x[0] == '/');
    }
    if y == "/"@ {
        assert(y[0] == '/');
    }
    text::lemma_str_less_total(x, x);
    lemma_last_decides(c, x, y);
}

proof fn lemma_last_decides(c: Seq<Seq<char>>, x: Seq<char>, y: Seq<char>)
    requires
        x != y,
        checkpoint::part_less(x, y),
    ensures
        checkpoint::parts_less(c.push(x), c.push(y)),
    decreases c.len(),
{
    if c.len() > 0 {
        lemma_last_decides(c.skip(1), x, y);
        assert(c.push(x).skip(1) =~= c.skip(1).push(x));
        assert(c.push(y).skip(1) =~= c.skip(1).push(y));
    }
}

/// The scratch files of a checkpoint are the files that the patterns matched: every
/// one of them is there under one of its names, and nothing else is; they are in the
/// order of their paths.
pub proof fn law_scratch_files_are_those_found(
    found: Seq<checkpoint::Found>,
    v: Seq<Seq<char>>,
    k: int,
    i: int,
)
    requires
        checkpoint::are_files(found, found.len() as int, v),
    ensures
        0 <= k < found.len() && found[k].is_file ==> exists|j: int|
            0 <= j < v.len() && checkpoint::parts(#[trigger] v[j]) == checkpoint::parts(
                found[k].path@,
            ),
        0 <= i < v.len() ==> exists|m: int|
            0 <= m < found.len() && #[trigger] found[m].is_file && found[m].path@ == v[i],
        0 <= i < k < v.len() ==> checkpoint::path_less(v[i], v[k]),
{
    if 0 <= k < found.len() && found[k].is_file {
        let j = choose|j: int|
            0 <= j < v.len() && checkpoint::same_path(#[trigger] v[j], found[k].path@);
        assert(checkpoint::parts(v[j]) == checkpoint::parts(found[k].path@));
    }
    if 0 <= i < v.len() {
        reveal(checkpoint::first_found);
        assert(checkpoint::first_found(found, found.len() as int, v[i]));
    }
}

/// A list of files that a manifest holds is read with the entries that name a file
/// and its place, in their order; an entry that lacks one of them is passed over.
pub proof fn law_whole_records_are_read(
    v: Seq<(Option<Seq<char>>, Option<Seq<char>>)>,
    a: Seq<char>,
    b: Seq<char>,
    o: Option<Seq<char>>,
)
    ensures
        json::full_records(v.push((Some(a), Some(b)))) == json::full_records(v).push((a, b)),
        json::full_records(v.push((None, o))) == json::full_records(v),
        json::full_records(v.push((o, None))) == json::full_records(v),
        json::full_records(Seq::empty()).len() == 0,
{
    assert(v.push((Some(a), Some(b))).drop_last() =~= v);
    assert(v.push((None, o)).drop_last() =~= v);
    assert(v.push((o, None)).drop_last() =~= v);
}

/// The task of an agent is what its file holds, without the line feed at its end; a
/// file that holds nothing else names none.
pub proof fn law_task_is_what_the_file_says(task: Seq<char>)
    requires
        task.len() > 0,
        text_laws::solid(task),
    ensures
        request::task_in(Some(task)) == Some(task),
        request::task_in(Some(task.push('\n'))) == Some(task),
        request::task_in(Some(Seq::empty())) is None,
        request::task_in(None) is None,
{
    assert(!text::is_white(task[0]));
    assert(!text::is_white(task[task.len() - 1]));
    let s = task.push('\n');
    assert(s[0] == task[0]);
    assert(s.drop_last() =~= task);
    reveal_with_fuel(text::trim_end, 2);
    assert(text::trim_start(s) == s);
    assert(text::trim(s) == task);
    assert(text::trim(task) == task);
}

} // verus!
