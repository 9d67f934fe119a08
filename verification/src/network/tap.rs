//! TAP devices.
//!
//! Each VM has a device of its own, whose name is made of the installation's
//! prefix and the first digits of the VM's id.
use crate::command;
use crate::command::{Cmd, Outcome};
use crate::deeds;
use crate::deeds::Deed;
use crate::error;
use crate::error::Error;
use crate::plan;
use crate::plan::{Plan, Reply};
use crate::text;
use vstd::prelude::*;

verus! {

/// Size of the buffer for a device name, with its end mark.
pub const IFNAMSIZ: usize = 16;

/// Creating a TAP device and giving it an address.
#[derive(Clone, Copy, Debug, PartialEq, Eq, Structural)]
pub enum CreateTap {
    /// See that the name is short enough.
    CheckLength,
    /// Open the TUN device.
    OpenTun,
    /// See that the name can be a C string.
    CheckNul,
    /// Create the device.
    SetInterface,
    /// Make it outlive this process.
    Persist,
    /// Run the command that assigns the address.
    SpawnAddress,
    /// See that it succeeded.
    CheckAddress,
    /// Run the command that brings the device up.
    SpawnUp,
    /// See that it succeeded.
    CheckUp,
    /// Delete the device after a failure.
    Delete,
    /// The device is up.
    Up,
    /// There is no device that is up.
    Failed,
}

impl Plan for CreateTap {
    open spec fn next(self, r: Reply) -> Self {
        match self {
            CreateTap::CheckLength => match r {
                Reply::Error => CreateTap::Failed,
                _ => CreateTap::OpenTun,
            },
            CreateTap::OpenTun => match r {
                Reply::Error => CreateTap::Failed,
                _ => CreateTap::CheckNul,
            },
            CreateTap::CheckNul => match r {
                Reply::Error => CreateTap::Failed,
                _ => CreateTap::SetInterface,
            },
            CreateTap::SetInterface => match r {
                Reply::Error => CreateTap::Failed,
                _ => CreateTap::Persist,
            },
            CreateTap::Persist => match r {
                Reply::Error => CreateTap::Delete,
                _ => CreateTap::SpawnAddress,
            },
            CreateTap::SpawnAddress => match r {
                Reply::Error => CreateTap::Failed,
                _ => CreateTap::CheckAddress,
            },
            CreateTap::CheckAddress => match r {
                Reply::Error => CreateTap::Delete,
                _ => CreateTap::SpawnUp,
            },
            CreateTap::SpawnUp => match r {
                Reply::Error => CreateTap::Failed,
                _ => CreateTap::CheckUp,
            },
            CreateTap::CheckUp => match r {
                Reply::Error => CreateTap::Delete,
                _ => CreateTap::Up,
            },
            CreateTap::Delete => CreateTap::Failed,
            CreateTap::Up => CreateTap::Up,
            CreateTap::Failed => CreateTap::Failed,
        }
    }

    open spec fn lenient(self) -> bool {
        self == CreateTap::Delete
    }

    open spec fn ended(self) -> bool {
        self == CreateTap::Up || self == CreateTap::Failed
    }

    open spec fn doomed(self) -> bool {
        self == CreateTap::Delete || self == CreateTap::Failed
    }

    open spec fn left(self) -> nat {
        match self {
            CreateTap::CheckLength => 10,
            CreateTap::OpenTun => 9,
            CreateTap::CheckNul => 8,
            CreateTap::SetInterface => 7,
            CreateTap::Persist => 6,
            CreateTap::SpawnAddress => 5,
            CreateTap::CheckAddress => 4,
            CreateTap::SpawnUp => 3,
            CreateTap::CheckUp => 2,
            CreateTap::Delete => 1,
            _ => 0,
        }
    }

    fn step(self, r: Reply) -> (p: Self) {
        match self {
            CreateTap::CheckLength => match r {
                Reply::Error => CreateTap::Failed,
                _ => CreateTap::OpenTun,
            },
            CreateTap::OpenTun => match r {
                Reply::Error => CreateTap::Failed,
                _ => CreateTap::CheckNul,
            },
            CreateTap::CheckNul => match r {
                Reply::Error => CreateTap::Failed,
                _ => CreateTap::SetInterface,
            },
            CreateTap::SetInterface => match r {
                Reply::Error => CreateTap::Failed,
                _ => CreateTap::Persist,
            },
            CreateTap::Persist => match r {
                Reply::Error => CreateTap::Delete,
                _ => CreateTap::SpawnAddress,
            },
            CreateTap::SpawnAddress => match r {
                Reply::Error => CreateTap::Failed,
                _ => CreateTap::CheckAddress,
            },
            CreateTap::CheckAddress => match r {
                Reply::Error => CreateTap::Delete,
                _ => CreateTap::SpawnUp,
            },
            CreateTap::SpawnUp => match r {
                Reply::Error => CreateTap::Failed,
                _ => CreateTap::CheckUp,
            },
            CreateTap::CheckUp => match r {
                Reply::Error => CreateTap::Delete,
                _ => CreateTap::Up,
            },
            CreateTap::Delete => CreateTap::Failed,
            CreateTap::Up => CreateTap::Up,
            CreateTap::Failed => CreateTap::Failed,
        }
    }

    fn is_lenient(self) -> (b: bool) {
        match self {
            CreateTap::Delete => true,
            _ => false,
        }
    }

    proof fn lemma_ends(self, r: Reply) {
    }
}

/// A device that was set up and cannot be kept, addressed or brought up is deleted,
/// unless the program that should do so cannot be started; and a device is up only
/// where all of that worked.
pub proof fn law_failed_tap_is_deleted(replies: Seq<Reply>)
    ensures
        ({
            let p = CreateTap::CheckLength;
            let end = plan::reached(p, replies);
            &&& end == CreateTap::Failed && plan::manages(p, replies, CreateTap::SetInterface)
                ==> plan::does(p, replies, CreateTap::Delete)
                || plan::gets(p, replies, CreateTap::SpawnAddress, Reply::Error)
                || plan::gets(p, replies, CreateTap::SpawnUp, Reply::Error)
            &&& end == CreateTap::Up ==> plan::manages(p, replies, CreateTap::Persist)
            &&& end == CreateTap::Up ==> plan::manages(p, replies, CreateTap::CheckAddress)
            &&& end == CreateTap::Up ==> plan::manages(p, replies, CreateTap::CheckUp)
        }),
{
    let p = CreateTap::CheckLength;
    plan::lemma_way_out(
        p,
        replies,
        plan::managing(CreateTap::SetInterface),
        |x: CreateTap|
            x == CreateTap::Persist || x == CreateTap::SpawnAddress
                || x == CreateTap::CheckAddress || x == CreateTap::SpawnUp
                || x == CreateTap::CheckUp || x == CreateTap::Up || x == CreateTap::Delete,
        plan::either(
            plan::doing(CreateTap::Delete),
            plan::either(
                plan::getting(CreateTap::SpawnAddress, Reply::Error),
                plan::getting(CreateTap::SpawnUp, Reply::Error),
            ),
        ),
    );
    plan::lemma_either(
        p,
        replies,
        plan::doing(CreateTap::Delete),
        plan::either(
            plan::getting(CreateTap::SpawnAddress, Reply::Error),
            plan::getting(CreateTap::SpawnUp, Reply::Error),
        ),
    );
    plan::lemma_either(
        p,
        replies,
        plan::getting(CreateTap::SpawnAddress, Reply::Error),
        plan::getting(CreateTap::SpawnUp, Reply::Error),
    );
    plan::lemma_way_in(
        p,
        replies,
        |x: CreateTap|
            x != CreateTap::CheckLength && x != CreateTap::OpenTun
                && x != CreateTap::CheckNul && x != CreateTap::SetInterface
                && x != CreateTap::Persist && x != CreateTap::Delete
                && x != CreateTap::Failed,
        plan::managing(CreateTap::Persist),
    );
    plan::lemma_way_in(
        p,
        replies,
        |x: CreateTap| x == CreateTap::SpawnUp || x == CreateTap::CheckUp || x == CreateTap::Up,
        plan::managing(CreateTap::CheckAddress),
    );
    plan::lemma_way_in(
        p,
        replies,
        |x: CreateTap| x == CreateTap::Up,
        plan::managing(CreateTap::CheckUp),
    );
}

/// See that a device name is short enough.
pub fn check_length(name: &str) -> (r: Result<bool, Error>)
    ensures
        match r {
            Ok(b) => b && vstd::utf8::encode_utf8(name@).len() as usize <= 15,
            Err(e) => vstd::utf8::encode_utf8(name@).len() as usize > 15 && error::is_network(
                e,
                "TAP device name '"@ + name@ + "' too long (max "@ + text::dec(15) + " bytes)"@,
            ),
        },
{
    if name.len() >= IFNAMSIZ {
        return Err(
            Error::Network(
                text::cat5(
                    "TAP device name '",
                    name,
                    "' too long (max ",
                    text::dec_u64(15).as_str(),
                    " bytes)",
                ),
            ),
        );
    }
    Ok(true)
}

/// See that a device name holds no null character.
pub fn check_nul(name: &str) -> (r: Result<bool, Error>)
    ensures
        match r {
            Ok(b) => b && !name@.contains('\0'),
            Err(e) => name@.contains('\0') && error::is_network(e, "TAP name contains null byte"@),
        },
{
    let v = text::to_chars(name);
    let mut i: usize = 0;
    while i < v.len()
        invariant
            i <= v.len(),
            v@ == name@,
            forall|j: int| 0 <= j < i ==> v@[j] != '\0',
        decreases v.len() - i,
    {
        if v[i] == '\0' {
            assert(name@[i as int] == '\0');
            return Err(Error::Network("TAP name contains null byte".to_owned()));
        }
        i += 1;
    }
    Ok(true)
}

/// Gives a device an address.
pub fn assign_address(name: &str, host_ip: &str) -> (r: Cmd)
    ensures
        r@ == command::cmd("ip"@, seq!["addr"@, "add"@, host_ip@, "dev"@, name@], "ip addr add"@, "ip addr add"@),
        deeds::ip(r@) == Some(Deed::Address { address: host_ip@, device: name@ }),
{
    proof {
        deeds::lemma_ip();
    }
    let r = command::command("ip", &["addr", "add", host_ip, "dev", name], "ip addr add", "ip addr add");
    assert(r@.args =~= seq!["addr"@, "add"@, host_ip@, "dev"@, name@]);
    r
}

/// Brings a device up.
pub fn bring_up(name: &str) -> (r: Cmd)
    ensures
        r@ == command::cmd("ip"@, seq!["link"@, "set"@, name@, "up"@], "ip link set"@, "ip link set"@),
        deeds::ip(r@) == Some(Deed::Raise { device: name@ }),
{
    proof {
        deeds::lemma_ip();
    }
    let r = command::command("ip", &["link", "set", name, "up"], "ip link set", "ip link set");
    assert(r@.args =~= seq!["link"@, "set"@, name@, "up"@]);
    r
}

/// Deletes a device.
pub fn delete(name: &str) -> (r: Cmd)
    ensures
        r@ == command::cmd("ip"@, seq!["link"@, "delete"@, name@], "ip link delete"@, "ip link delete"@),
        deeds::ip(r@) == Some(Deed::DropDevice { device: name@ }),
{
    proof {
        deeds::lemma_ip();
    }
    let r = command::command("ip", &["link", "delete", name], "ip link delete", "ip link delete");
    assert(r@.args =~= seq!["link"@, "delete"@, name@]);
    r
}

/// Whether a device is gone after [`delete`]: one that was not there is gone.
pub fn deleted(name: &str, o: Outcome) -> (r: Result<(), Error>)
    ensures
        match o {
            Outcome::NotSpawned(why) => r is Err && (r->Err_0 matches Error::CommandExec {
                command,
                source,
            } && command@ == "ip link delete"@ && source@ == why@),
            Outcome::Exited(out) => {
                let stderr = text::utf8_lossy(out.stderr@);
                let gone = out.success() || text::contains_text(stderr, "Cannot find device"@);
                match r {
                    Ok(_) => gone,
                    Err(e) => !gone && error::is_network(
                        e,
                        "'ip link delete "@ + name@ + "' failed: "@ + text::trim(stderr),
                    ),
                }
            },
        },
{
    match o {
        Outcome::NotSpawned(why) => Err(
            Error::CommandExec { command: "ip link delete".to_owned(), source: why },
        ),
        Outcome::Exited(out) => {
            if out.succeeded() {
                return Ok(());
            }
            let stderr = text::from_utf8_lossy(&out.stderr);
            if text::contains(stderr.as_str(), "Cannot find device") {
                return Ok(());
            }
            let t = text::trimmed(stderr.as_str());
            Err(
                Error::Network(text::cat4("'ip link delete ", name, "' failed: ", t.as_str())),
            )
        },
    }
}

/// Name prefix of the devices of an installation.
pub open spec fn prefix_text(ns: Option<Seq<char>>) -> Seq<char> {
    match ns {
        None => "em-"@,
        Some(id) => "em"@ + id + "-"@,
    }
}

/// Name prefix of the devices of an installation; the old one for installations
/// without a namespace.
pub fn prefix(instance_id: Option<&str>) -> (r: String)
    ensures
        r@ == prefix_text(crate::config::opt_str(instance_id)),
{
    match instance_id {
        None => "em-".to_owned(),
        Some(id) => text::cat3("em", id, "-"),
    }
}

/// Lists the devices of the kernel's TUN driver.
pub fn list_devices() -> (r: Cmd)
    ensures
        r@ == command::cmd("ip"@, seq!["-o"@, "link"@, "show"@, "type"@, "tun"@], "ip link show"@, "ip link show"@),
        deeds::ip(r@) == Some(Deed::Devices { kind: "tun"@ }),
{
    proof {
        deeds::lemma_ip();
    }
    let r = command::command("ip", &["-o", "link", "show", "type", "tun"], "ip link show", "ip link show");
    assert(r@.args =~= seq!["-o"@, "link"@, "show"@, "type"@, "tun"@]);
    r
}

/// The device name in a line: what stands between its first two colons.
pub open spec fn listed_name(line: Seq<char>) -> Option<Seq<char>> {
    match text::halves(line, ':') {
        None => None,
        Some((_, rest)) => Some(
            text::trim(
                match text::halves(rest, ':') {
                    Some((name, _)) => name,
                    None => rest,
                },
            ),
        ),
    }
}

/// The device names in the given lines that start with `prefix`.
pub open spec fn listed_names(lines: Seq<Seq<char>>, prefix: Seq<char>) -> Seq<Seq<char>>
    decreases lines.len(),
{
    if lines.len() == 0 {
        Seq::empty()
    } else {
        let before = listed_names(lines.drop_last(), prefix);
        match listed_name(lines.last()) {
            Some(n) => if prefix.is_prefix_of(n) {
                before.push(n)
            } else {
                before
            },
            None => before,
        }
    }
}

/// The devices in the answer to [`list_devices`] whose name starts with `prefix`.
/// A listing that failed has none.
pub fn list_devices_with_prefix(listing: Option<&str>, prefix: &str) -> (r: Vec<String>)
    ensures
        text::views(r@) == (match listing {
            Some(s) => listed_names(text::lines(s@), prefix@),
            None => Seq::empty(),
        }),
{
    let mut out: Vec<String> = Vec::new();
    assert(text::views(out@) =~= Seq::<Seq<char>>::empty());
    match listing {
        None => {},
        Some(s) => {
            let lines = text::split_lines(s);
            let mut i: usize = 0;
            assert(text::views(lines@).take(0) =~= Seq::<Seq<char>>::empty());
            while i < lines.len()
                invariant
                    i <= lines.len(),
                    text::views(out@) == listed_names(
                        text::views(lines@).take(i as int),
                        prefix@,
                    ),
                decreases lines.len() - i,
            {
                proof {
                    let t = text::views(lines@).take(i + 1);
                    assert(t.drop_last() =~= text::views(lines@).take(i as int));
                    assert(t.last() == lines@[i as int]@);
                }
                if let Some((_, rest)) = text::split_once(lines[i].as_str(), ':') {
                    let raw = match text::split_once(rest.as_str(), ':') {
                        Some((n, _)) => n,
                        None => rest,
                    };
                    let name = text::trimmed(raw.as_str());
                    if text::starts_with(name.as_str(), prefix) {
                        proof {
                            text::lemma_views_push(out@, name);
                        }
                        out.push(name);
                    }
                }
                i += 1;
            }
            assert(text::views(lines@).take(lines@.len() as int) =~= text::views(lines@));
        },
    }
    out
}

/// `Uuid::from_u128(id).as_simple()` shown as a string is the id as 32 lowercase
/// hexadecimal digits, most significant first.
#[verifier::external_body]
fn uuid_simple(id: u128) -> (r: String)
    ensures
        r@ == text::hex_fixed(id as nat, 32),
{
    uuid::Uuid::from_u128(id).as_simple().to_string()
}

/// Name of the device of a VM.
pub open spec fn device_text(tap_prefix: Seq<char>, vm_id: u128) -> Seq<char> {
    tap_prefix + text::hex_fixed(vm_id as nat, 32).take(7)
}

proof fn lemma_hex_len(n: nat, width: nat)
    ensures
        text::hex_fixed(n, width).len() == width,
    decreases width,
{
    if width > 0 {
        lemma_hex_len(n / 16, (width - 1) as nat);
    }
}

/// Name of the device of a VM: the prefix and the first seven digits of its id.
pub fn device_name(tap_prefix: &str, vm_id: u128) -> (r: String)
    ensures
        r@ == device_text(tap_prefix@, vm_id),
{
    let hex = text::to_chars(uuid_simple(vm_id).as_str());
    proof {
        lemma_hex_len(vm_id as nat, 32);
    }
    let head = text::from_chars(vstd::slice::slice_subrange(hex.as_slice(), 0, 7));
    assert(head@ =~= text::hex_fixed(vm_id as nat, 32).take(7));
    text::cat2(tap_prefix, head.as_str())
}

proof fn lemma_bytes_of_concat(a: Seq<char>, b: Seq<char>)
    ensures
        vstd::utf8::encode_utf8(a + b).len() == vstd::utf8::encode_utf8(a).len()
            + vstd::utf8::encode_utf8(b).len(),
    decreases a.len(),
{
    if a.len() == 0 {
        assert(a + b =~= b);
    } else {
        lemma_bytes_of_concat(a.drop_first(), b);
        assert((a + b).drop_first() =~= a.drop_first() + b);
        assert((a + b)[0] == a[0]);
    }
}

proof fn lemma_bytes_of_ascii(s: Seq<char>)
    requires
        forall|i: int| 0 <= i < s.len() ==> (#[trigger] s[i]) as u32 <= 0x7f,
    ensures
        vstd::utf8::encode_utf8(s).len() == s.len(),
    decreases s.len(),
{
    if s.len() > 0 {
        let d = s.drop_first();
        assert forall|i: int| 0 <= i < d.len() implies (#[trigger] d[i]) as u32 <= 0x7f by {
            assert(d[i] == s[i + 1]);
        }
        assert(s[0] as u32 <= 0x7f);
        lemma_bytes_of_ascii(d);
    }
}

proof fn lemma_hex_is_ascii(n: nat, width: nat, i: int)
    requires
        0 <= i < text::hex_fixed(n, width).len(),
    ensures
        text::hex_fixed(n, width)[i] as u32 <= 0x7f,
    decreases width,
{
    if width > 0 && i < text::hex_fixed(n / 16, (width - 1) as nat).len() {
        lemma_hex_is_ascii(n / 16, (width - 1) as nat, i);
    }
}

/// With a namespace of at most four bytes, every device name is short enough, and
/// starts with the prefix of the installation.
pub proof fn law_device_names_fit(ns: Option<Seq<char>>, vm_id: u128)
    requires
        ns matches Some(id) ==> vstd::utf8::encode_utf8(id).len() <= 4,
    ensures
        vstd::utf8::encode_utf8(device_text(prefix_text(ns), vm_id)).len() < IFNAMSIZ,
        prefix_text(ns).is_prefix_of(device_text(prefix_text(ns), vm_id)),
{
    let digits = text::hex_fixed(vm_id as nat, 32);
    let head = digits.take(7);
    lemma_hex_len(vm_id as nat, 32);
    reveal_strlit("em-");
    reveal_strlit("em");
    reveal_strlit("-");
    assert forall|i: int| 0 <= i < head.len() implies (#[trigger] head[i]) as u32 <= 0x7f by {
        lemma_hex_is_ascii(vm_id as nat, 32, i);
    }
    lemma_bytes_of_ascii(head);
    lemma_bytes_of_ascii("em-"@);
    lemma_bytes_of_ascii("em"@);
    lemma_bytes_of_ascii("-"@);
    if let Some(id) = ns {
        lemma_bytes_of_concat("em"@, id);
        lemma_bytes_of_concat("em"@ + id, "-"@);
    }
    lemma_bytes_of_concat(prefix_text(ns), head);
    assert(prefix_text(ns) =~= device_text(prefix_text(ns), vm_id).take(
        prefix_text(ns).len() as int,
    ));
}

} // verus!
