//! Access to the host side of a VM's vsock device.
use crate::error;
use crate::error::Error;
use crate::plan;
use crate::plan::{Plan, Reply};
use crate::text;
use vstd::prelude::*;

verus! {

/// How long to wait for the socket, in milliseconds.
pub const SOCKET_TIMEOUT_MS: u64 = 5000;

/// How long to sleep between two looks, in milliseconds.
pub const SOCKET_POLL_INTERVAL_MS: u64 = 20;

/// Mode of the socket: read and write for its owner, nothing for others.
pub const SOCKET_MODE: u32 = 0o600;

/// The user and group that run the command through `sudo`: both must be given
/// and be numbers, and the user must not be root.
pub open spec fn sudo_user(uid: Option<Seq<char>>, gid: Option<Seq<char>>) -> Option<(u32, u32)> {
    match (uid, gid) {
        (Some(u), Some(g)) => match (
            text::parse_uint(text::trim(u), u32::MAX as nat),
            text::parse_uint(text::trim(g), u32::MAX as nat),
        ) {
            (Ok(a), Ok(b)) => if a == 0 {
                None
            } else {
                Some((a as u32, b as u32))
            },
            _ => None,
        },
        _ => None,
    }
}

/// The user and group that run the command through `sudo`.
pub fn parse_invoking_user(uid: Option<&str>, gid: Option<&str>) -> (r: Option<(u32, u32)>)
    ensures
        r == sudo_user(crate::config::opt_str(uid), crate::config::opt_str(gid)),
{
    let (u, g) = match (uid, gid) {
        (Some(u), Some(g)) => (u, g),
        _ => return None,
    };
    let a: u64 = match text::parse_uint_str(text::trimmed(u).as_str(), u32::MAX as u64) {
        Ok(n) => n,
        Err(_) => return None,
    };
    let b: u64 = match text::parse_uint_str(text::trimmed(g).as_str(), u32::MAX as u64) {
        Ok(n) => n,
        Err(_) => return None,
    };
    proof {
        text::lemma_parse_bound(text::trim(u@), u32::MAX as nat);
        text::lemma_parse_bound(text::trim(g@), u32::MAX as nat);
    }
    if a == 0 {
        None
    } else {
        Some((a as u32, b as u32))
    }
}

/// The mode that lets others pass through a directory, where it does not yet.
/// Only the search bit is added.
pub open spec fn searchable(mode: u32) -> Option<u32> {
    let m = mode % 0o10000;
    if m % 2 == 1 {
        None
    } else {
        Some((m + 1) as u32)
    }
}

/// The mode that a directory is to get so that others can pass through it; `None`
/// where they can already.
pub fn ensure_dir_searchable(mode: u32) -> (r: Option<u32>)
    ensures
        r == searchable(mode),
{
    let m: u32 = mode % 0o10000;
    if m % 2 == 1 {
        None
    } else {
        Some(m + 1)
    }
}

/// The new mode is the old one with the search bit for others, and nothing else.
pub proof fn law_only_search_bit_is_added(mode: u32)
    ensures
        searchable(mode) matches Some(m) ==> m == (mode & 0o7777) | 1 && (mode & 1) == 0,
        searchable(mode) is None <==> (mode & 1) == 1,
{
    assert((mode & 0o7777) == mode % 0o10000) by (bit_vector);
    assert((mode & 1) == mode % 0o10000 % 2) by (bit_vector);
    let m = (mode % 0o10000) as u32;
    assert(m % 2 == 0 && m < 0o10000 ==> (m | 1) == m + 1) by (bit_vector);
}

/// What to do while waiting for the socket.
#[derive(Clone, Copy, Debug, PartialEq, Eq, Structural)]
pub enum Waiting {
    Found,
    Sleep,
    TimedOut,
}

/// What to do after a look for the socket, so many milliseconds after the start.
pub fn wait_for_socket_within(elapsed_ms: u64, timeout_ms: u64, found: bool) -> (r: Waiting)
    ensures
        r == (if elapsed_ms >= timeout_ms {
            Waiting::TimedOut
        } else if found {
            Waiting::Found
        } else {
            Waiting::Sleep
        }),
{
    if elapsed_ms >= timeout_ms {
        Waiting::TimedOut
    } else if found {
        Waiting::Found
    } else {
        Waiting::Sleep
    }
}

/// The part of a second that so many milliseconds are, with a point, and without
/// zeros at its end; nothing for none.
pub open spec fn fraction_text(ms: u64) -> Seq<char> {
    if ms == 0 {
        Seq::empty()
    } else if ms % 100 == 0 {
        "."@ + text::dec_fixed((ms / 100) as nat, 1)
    } else if ms % 10 == 0 {
        "."@ + text::dec_fixed((ms / 10) as nat, 2)
    } else {
        "."@ + text::dec_fixed(ms as nat, 3)
    }
}

/// How a time span is shown, such as `50ms`, `5s` or `1.5s`.
pub open spec fn span_text(ms: u64) -> Seq<char> {
    if ms == 0 {
        "0ns"@
    } else if ms < 1000 {
        text::dec(ms as nat) + "ms"@
    } else {
        text::dec((ms / 1000) as nat) + fraction_text(ms % 1000) + "s"@
    }
}

fn fraction(ms: u64) -> (r: String)
    ensures
        r@ == fraction_text(ms),
{
    if ms == 0 {
        let r = String::new();
        assert(r@ =~= Seq::<char>::empty());
        r
    } else if ms % 100 == 0 {
        text::cat2(".", text::dec_padded(ms / 100, 1).as_str())
    } else if ms % 10 == 0 {
        text::cat2(".", text::dec_padded(ms / 10, 2).as_str())
    } else {
        text::cat2(".", text::dec_padded(ms, 3).as_str())
    }
}

/// How a time span is shown.
pub fn span(ms: u64) -> (r: String)
    ensures
        r@ == span_text(ms),
{
    if ms == 0 {
        "0ns".to_owned()
    } else if ms < 1000 {
        text::cat2(text::dec_u64(ms).as_str(), "ms")
    } else {
        text::cat3(text::dec_u64(ms / 1000).as_str(), fraction(ms % 1000).as_str(), "s")
    }
}

/// The error of a socket that did not appear, given how the time that was waited is
/// shown.
pub fn late_socket(path: &str, waited: &str) -> (e: Error)
    ensures
        error::is_vsock(e, "vsock socket did not appear at "@ + path@ + " within "@ + waited@),
{
    Error::Vsock(text::cat4("vsock socket did not appear at ", path, " within ", waited))
}

/// The error of a socket that did not appear in time.
pub fn socket_missing(path: &str, timeout_ms: u64) -> (e: Error)
    ensures
        error::is_vsock(
            e,
            "vsock socket did not appear at "@ + path@ + " within "@ + span_text(timeout_ms),
        ),
{
    late_socket(path, span(timeout_ms).as_str())
}

/// What is shown where there is no user to hand the socket to.
pub fn root_only_note(path: &str) -> (r: String)
    ensures
        r@ == "note: vsock socket "@ + path@ + " left root-only (no SUDO_UID in environment)"@,
{
    text::cat3("note: vsock socket ", path, " left root-only (no SUDO_UID in environment)")
}

/// Giving the user who runs the command access to the socket, and no one else.
#[derive(Clone, Copy, Debug, PartialEq, Eq, Structural)]
pub enum Secure {
    /// Wait for the socket.
    Wait,
    /// Narrow its mode to that of its owner.
    Narrow,
    /// See whether an ordinary user runs the command.
    AskUser,
    /// Give the socket to that user.
    Chown,
    /// See whether the socket is in a directory.
    AskParent,
    /// Let others pass through the directory.
    OpenDir,
    /// The socket is secured.
    Done,
    /// It may not be.
    Failed,
}

impl Plan for Secure {
    open spec fn next(self, r: Reply) -> Self {
        match self {
            Secure::Wait => match r {
                Reply::Error => Secure::Failed,
                _ => Secure::Narrow,
            },
            Secure::Narrow => match r {
                Reply::Error => Secure::Failed,
                _ => Secure::AskUser,
            },
            Secure::AskUser => match r {
                Reply::Yes => Secure::Chown,
                Reply::No => Secure::Done,
                Reply::Error => Secure::Failed,
            },
            Secure::Chown => match r {
                Reply::Error => Secure::Failed,
                _ => Secure::AskParent,
            },
            Secure::AskParent => match r {
                Reply::Yes => Secure::OpenDir,
                Reply::No => Secure::Done,
                Reply::Error => Secure::Failed,
            },
            Secure::OpenDir => match r {
                Reply::Error => Secure::Failed,
                _ => Secure::Done,
            },
            Secure::Done => Secure::Done,
            Secure::Failed => Secure::Failed,
        }
    }

    open spec fn lenient(self) -> bool {
        false
    }

    open spec fn ended(self) -> bool {
        self == Secure::Done || self == Secure::Failed
    }

    open spec fn doomed(self) -> bool {
        self == Secure::Failed
    }

    open spec fn left(self) -> nat {
        match self {
            Secure::Wait => 6,
            Secure::Narrow => 5,
            Secure::AskUser => 4,
            Secure::Chown => 3,
            Secure::AskParent => 2,
            Secure::OpenDir => 1,
            _ => 0,
        }
    }

    fn step(self, r: Reply) -> (p: Self) {
        match self {
            Secure::Wait => match r {
                Reply::Error => Secure::Failed,
                _ => Secure::Narrow,
            },
            Secure::Narrow => match r {
                Reply::Error => Secure::Failed,
                _ => Secure::AskUser,
            },
            Secure::AskUser => match r {
                Reply::Yes => Secure::Chown,
                Reply::No => Secure::Done,
                Reply::Error => Secure::Failed,
            },
            Secure::Chown => match r {
                Reply::Error => Secure::Failed,
                _ => Secure::AskParent,
            },
            Secure::AskParent => match r {
                Reply::Yes => Secure::OpenDir,
                Reply::No => Secure::Done,
                Reply::Error => Secure::Failed,
            },
            Secure::OpenDir => match r {
                Reply::Error => Secure::Failed,
                _ => Secure::Done,
            },
            Secure::Done => Secure::Done,
            Secure::Failed => Secure::Failed,
        }
    }

    fn is_lenient(self) -> (b: bool) {
        false
    }

    proof fn lemma_ends(self, r: Reply) {
    }
}

/// The mode is narrowed before the socket changes hands, and without a user the
/// socket and its directory stay as they are.
pub proof fn law_socket_is_narrowed_first(replies: Seq<Reply>)
    ensures
        ({
            let p = Secure::Wait;
            let end = plan::reached(p, replies);
            &&& plan::does(p, replies, Secure::Chown)
                || plan::does(p, replies, Secure::OpenDir)
                ==> plan::manages(p, replies, Secure::Narrow)
            &&& plan::does(p, replies, Secure::Chown)
                || plan::does(p, replies, Secure::OpenDir)
                ==> plan::gets(p, replies, Secure::AskUser, Reply::Yes)
            &&& plan::does(p, replies, Secure::OpenDir)
                ==> plan::gets(p, replies, Secure::AskParent, Reply::Yes)
            &&& end == Secure::Done ==> plan::manages(p, replies, Secure::Narrow)
        }),
{
    let p = Secure::Wait;
    plan::lemma_way_in(
        p,
        replies,
        |x: Secure| x != Secure::Wait && x != Secure::Narrow && x != Secure::Failed,
        plan::managing(Secure::Narrow),
    );
    plan::lemma_way_in(
        p,
        replies,
        |x: Secure| x == Secure::Chown || x == Secure::AskParent || x == Secure::OpenDir,
        plan::getting(Secure::AskUser, Reply::Yes),
    );
    plan::lemma_way_in(
        p,
        replies,
        |x: Secure| x == Secure::OpenDir,
        plan::getting(Secure::AskParent, Reply::Yes),
    );
    plan::lemma_way_in(
        p,
        replies,
        |x: Secure| x != Secure::Wait && x != Secure::Narrow && x != Secure::Failed,
        plan::managing(Secure::Narrow),
    );
}

} // verus!
