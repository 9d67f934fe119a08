//! IP allocation for VM networking.
//!
//! Two strategies: [`allocate`] hands out `/30` blocks, one point-to-point link
//! per VM; [`allocate_single`] hands out single addresses of a shared subnet.
//! Both record what they hand out in a [`NetworkTable`]. No slot and no VM name
//! is ever recorded twice, and an installation keeps to one subnet and one
//! strategy.
use crate::error;
use crate::error::Error;
use crate::text;
use std::collections::HashSet;
use vstd::prelude::*;

verus! {

broadcast use {vstd::std_specs::hash::group_hash_axioms, vstd::set::group_set_axioms};

/// A single IP allocation for one VM.
#[derive(Clone, Debug, PartialEq)]
pub struct IpAllocation {
    /// Index within the base subnet, in units of 4 addresses for [`allocate`]
    /// and of 1 for [`allocate_single`].
    pub block_index: u32,
    /// Host-side IP.
    pub host_ip: String,
    /// Guest-side IP.
    pub guest_ip: String,
    /// Netmask for the link.
    pub netmask: String,
}

/// Default base subnet when none is configured.
pub const DEFAULT_SUBNET: &'static str = "10.100.0.0/16";

/// Marks the rows of [`allocate`].
pub const STRATEGY_P2P: i64 = 0;

/// Marks the rows of [`allocate_single`].
pub const STRATEGY_SINGLE: i64 = 1;

// ---------------------------------------------------------------- addresses

/// The number that one part of a dotted address stands for: one to three
/// digits, no leading zero, at most 255.
pub open spec fn octet(s: Seq<char>) -> Option<nat> {
    if 1 <= s.len() <= 3 && text::all_digits(s) && (s.len() == 1 || s[0] != '0') && text::value(s)
        <= 255 {
        Some(text::value(s))
    } else {
        None
    }
}

/// The address that a dotted string stands for.
pub open spec fn ipv4(s: Seq<char>) -> Option<u32> {
    let p = text::split_char(s, '.');
    if p.len() == 4 && octet(p[0]) is Some && octet(p[1]) is Some && octet(p[2]) is Some && octet(
        p[3],
    ) is Some {
        Some(
            (octet(p[0])->0 * 0x100_0000 + octet(p[1])->0 * 0x1_0000 + octet(p[2])->0 * 0x100
                + octet(p[3])->0) as u32,
        )
    } else {
        None
    }
}

/// The dotted form of an address.
pub open spec fn ip_text(a: u32) -> Seq<char> {
    text::dec((a / 0x100_0000) as nat) + "."@ + text::dec((a / 0x1_0000 % 0x100) as nat) + "."@
        + text::dec((a / 0x100 % 0x100) as nat) + "."@ + text::dec((a % 0x100) as nat)
}

/// The dotted form of an address.
pub fn ip_to_string(a: u32) -> (s: String)
    ensures
        s@ == ip_text(a),
{
    let mut s = text::dec_u64((a / 0x100_0000) as u64);
    s.append(".");
    s.append(text::dec_u64((a / 0x1_0000 % 0x100) as u64).as_str());
    s.append(".");
    s.append(text::dec_u64((a / 0x100 % 0x100) as u64).as_str());
    s.append(".");
    s.append(text::dec_u64((a % 0x100) as u64).as_str());
    s
}

fn parse_octet(s: &str) -> (r: Option<u32>)
    ensures
        match r {
            Some(n) => octet(s@) == Some(n as nat),
            None => octet(s@) is None,
        },
{
    let v = text::to_chars(s);
    if v.len() == 0 || v.len() > 3 {
        return None;
    }
    if v.len() > 1 && v[0] == '0' {
        return None;
    }
    let mut n: u32 = 0;
    let mut i: usize = 0;
    assert(v@.take(0) =~= Seq::<char>::empty());
    while i < v.len()
        invariant
            i <= v.len() <= 3,
            v@ == s@,
            text::all_digits(v@.take(i as int)),
            n == text::value(v@.take(i as int)),
            n < (if i == 0 { 1int } else if i == 1 { 10 } else if i == 2 { 100 } else { 1000 }),
        decreases v.len() - i,
    {
        let c = v[i];
        if !('0' <= c && c <= '9') {
            assert(!text::is_digit(s@[i as int]));
            return None;
        }
        proof {
            let t = v@.take(i + 1);
            assert(t.drop_last() =~= v@.take(i as int));
            assert(t.last() == c);
            assert forall|j: int| 0 <= j < t.len() implies text::is_digit(#[trigger] t[j]) by {
                if j < i {
                    assert(v@.take(i as int)[j] == t[j]);
                }
            }
        }
        n = n * 10 + (c as u32 - 48);
        i += 1;
    }
    assert(v@.take(v@.len() as int) =~= v@);
    if n <= 255 {
        Some(n)
    } else {
        None
    }
}

/// The address that a dotted string stands for.
pub fn parse_ipv4(s: &str) -> (r: Option<u32>)
    ensures
        r == ipv4(s@),
{
    let p = text::split(s, '.');
    if p.len() != 4 {
        assert(text::views(p@).len() != 4);
        return None;
    }
    assert(text::views(p@).len() == 4);
    assert(text::views(p@)[0] == p@[0]@);
    assert(text::views(p@)[1] == p@[1]@);
    assert(text::views(p@)[2] == p@[2]@);
    assert(text::views(p@)[3] == p@[3]@);
    match (
        parse_octet(p[0].as_str()),
        parse_octet(p[1].as_str()),
        parse_octet(p[2].as_str()),
        parse_octet(p[3].as_str()),
    ) {
        (Some(a), Some(b), Some(c), Some(d)) => Some(
            a * 0x100_0000 + b * 0x1_0000 + c * 0x100 + d,
        ),
        _ => None,
    }
}

// --------------------------------------------------------------------- CIDR

/// How many addresses a prefix leaves open.
pub open spec fn cidr_size(prefix: u8) -> nat {
    vstd::arithmetic::power2::pow2((32 - prefix) as nat)
}

/// The base address and prefix length that a CIDR string stands for, or what is
/// wrong with it.
pub open spec fn cidr(s: Seq<char>) -> Result<(u32, u8), Seq<char>> {
    match text::halves(s, '/') {
        None => Err("invalid CIDR notation: "@ + s),
        Some((ip, p)) => match ipv4(ip) {
            None => Err("invalid IP in CIDR '"@ + s + "': "@ + "invalid IPv4 address syntax"@),
            Some(a) => match text::parse_uint(p, 255) {
                Err(e) => Err("invalid prefix in CIDR '"@ + s + "': "@ + e.text()),
                Ok(n) => if n > 32 {
                    Err("invalid CIDR prefix /"@ + text::dec(n) + ": must be 0..=32"@)
                } else if a as nat % cidr_size(n as u8) != 0 {
                    Err("IP "@ + ip_text(a) + " has host bits set for /"@ + text::dec(n))
                } else {
                    Ok((a, n as u8))
                },
            },
        },
    }
}

fn power_of_two(e: u32) -> (r: u64)
    requires
        e <= 32,
    ensures
        r == vstd::arithmetic::power2::pow2(e as nat),
        1 <= r <= 0x1_0000_0000,
{
    proof {
        vstd::arithmetic::power2::lemma2_to64();
    }
    let mut r: u64 = 1;
    let mut i: u32 = 0;
    while i < e
        invariant
            i <= e <= 32,
            r == vstd::arithmetic::power2::pow2(i as nat),
            vstd::arithmetic::power2::pow2(32) == 0x1_0000_0000,
            1 <= r <= 0x1_0000_0000,
        decreases e - i,
    {
        proof {
            vstd::arithmetic::power2::lemma_pow2_unfold((i + 1) as nat);
            if i + 1 < 32 {
                vstd::arithmetic::power2::lemma_pow2_strictly_increases((i + 1) as nat, 32);
            }
        }
        r = r * 2;
        i += 1;
    }
    r
}

/// Reads a CIDR subnet: base address and prefix length.
///
/// Any prefix up to 32 is accepted; the allocators have limits of their own.
pub fn parse_cidr(subnet: &str) -> (r: Result<(u32, u8), Error>)
    ensures
        match r {
            Ok(v) => cidr(subnet@) == Ok::<(u32, u8), Seq<char>>(v) && v.1 <= 32 && v.0 + cidr_size(
                v.1,
            ) <= 0x1_0000_0000,
            Err(e) => cidr(subnet@) is Err && error::is_network(e, cidr(subnet@)->Err_0),
        },
{
    let (ip_str, prefix_str) = match text::split_once(subnet, '/') {
        Some(p) => p,
        None => return Err(Error::Network(text::cat2("invalid CIDR notation: ", subnet))),
    };
    let ip: u32 = match parse_ipv4(ip_str.as_str()) {
        Some(a) => a,
        None => return Err(
            Error::Network(
                text::cat4("invalid IP in CIDR '", subnet, "': ", "invalid IPv4 address syntax"),
            ),
        ),
    };
    let prefix: u64 = match text::parse_uint_str(prefix_str.as_str(), 255) {
        Ok(n) => n,
        Err(e) => return Err(
            Error::Network(text::cat4("invalid prefix in CIDR '", subnet, "': ", e.message())),
        ),
    };
    if prefix > 32 {
        return Err(
            Error::Network(
                text::cat3(
                    "invalid CIDR prefix /",
                    text::dec_u64(prefix).as_str(),
                    ": must be 0..=32",
                ),
            ),
        );
    }
    let size: u64 = power_of_two(32 - prefix as u32);
    assert(size == cidr_size(prefix as u8));
    if ip as u64 % size != 0 {
        return Err(
            Error::Network(
                text::cat4(
                    "IP ",
                    ip_to_string(ip).as_str(),
                    " has host bits set for /",
                    text::dec_u64(prefix).as_str(),
                ),
            ),
        );
    }
    proof {
        lemma_base_plus_size(ip as nat, (32 - prefix) as nat);
    }
    Ok((ip, prefix as u8))
}

/// A masked base address leaves room for all the addresses of its subnet.
proof fn lemma_base_plus_size(a: nat, e: nat)
    requires
        a < 0x1_0000_0000,
        e <= 32,
        a % vstd::arithmetic::power2::pow2(e) == 0,
    ensures
        a + vstd::arithmetic::power2::pow2(e) <= 0x1_0000_0000,
{
    let p = vstd::arithmetic::power2::pow2(e);
    let q = vstd::arithmetic::power2::pow2((32 - e) as nat);
    vstd::arithmetic::power2::lemma2_to64();
    vstd::arithmetic::power2::lemma_pow2_adds(e, (32 - e) as nat);
    vstd::arithmetic::power2::lemma_pow2_pos(e);
    assert(p * q == 0x1_0000_0000);
    let k = a / p;
    assert(a == p * k) by {
        vstd::arithmetic::div_mod::lemma_fundamental_div_mod(a as int, p as int);
    }
    assert(k < q) by (nonlinear_arith)
        requires
            a == p * k,
            a < p * q,
            p > 0,
    ;
    assert(p * k + p <= p * q) by (nonlinear_arith)
        requires
            k < q,
            p > 0,
    ;
}

/// A subnet that parses lies in the address space.
pub proof fn lemma_cidr_fits(subnet: Seq<char>)
    requires
        cidr(subnet) is Ok,
    ensures
        cidr(subnet)->Ok_0.1 <= 32,
        cidr(subnet)->Ok_0.0 + cidr_size(cidr(subnet)->Ok_0.1) <= 0x1_0000_0000,
{
    let (a, p) = cidr(subnet)->Ok_0;
    lemma_base_plus_size(a as nat, (32 - p) as nat);
}

/// The `/30` blocks of a prefix fill it.
pub proof fn lemma_blocks_in(prefix: u8)
    requires
        prefix <= 30,
    ensures
        4 * blocks_in(prefix) == cidr_size(prefix),
{
    vstd::arithmetic::power2::lemma2_to64();
    vstd::arithmetic::power2::lemma_pow2_adds((30 - prefix) as nat, 2);
}

/// How many `/30` blocks fit a prefix.
pub open spec fn blocks_in(prefix: u8) -> nat {
    vstd::arithmetic::power2::pow2((30 - prefix) as nat)
}

/// Maximum number of /30 blocks that fit in a given prefix.
pub fn max_blocks(prefix_len: u8) -> (n: u32)
    requires
        prefix_len <= 30,
    ensures
        n == blocks_in(prefix_len),
        4 * n == cidr_size(prefix_len),
{
    let r: u64 = power_of_two(30 - prefix_len as u32);
    proof {
        vstd::arithmetic::power2::lemma2_to64();
        if prefix_len > 0 {
            vstd::arithmetic::power2::lemma_pow2_strictly_increases((30 - prefix_len) as nat, 30);
        }
        vstd::arithmetic::power2::lemma_pow2_adds((30 - prefix_len) as nat, 2);
    }
    r as u32
}

/// Host address of the `/30` block `i` above `base`.
pub open spec fn block_host(base: u32, i: u32) -> u32 {
    (base + 4 * i + 1) as u32
}

/// Guest address of the `/30` block `i` above `base`.
pub open spec fn block_guest(base: u32, i: u32) -> u32 {
    (base + 4 * i + 2) as u32
}

/// The addresses of a given /30 block.
pub fn block_ips(base: u32, block_index: u32) -> (r: IpAllocation)
    requires
        base + 4 * block_index + 2 <= u32::MAX,
    ensures
        r.block_index == block_index,
        r.host_ip@ == ip_text(block_host(base, block_index)),
        r.guest_ip@ == ip_text(block_guest(base, block_index)),
        r.netmask@ == "255.255.255.252"@,
        ipv4(r.netmask@) == Some(0xffff_fffcu32),
        ipv4(r.host_ip@) matches Some(h) && ipv4(r.guest_ip@) matches Some(g) && h == base + 4
            * block_index + 1 && g == h + 1,
{
    proof {
        crate::network::laws::law_link_mask();
        crate::network::ip_laws::law_ip_text_round_trip(block_host(base, block_index));
        crate::network::ip_laws::law_ip_text_round_trip(block_guest(base, block_index));
    }
    let network: u32 = base + block_index * 4;
    IpAllocation {
        block_index,
        host_ip: ip_to_string(network + 1),
        guest_ip: ip_to_string(network + 2),
        netmask: "255.255.255.252".to_owned(),
    }
}

// -------------------------------------------------------------------- table

/// One recorded allocation.
#[derive(Clone, Debug, PartialEq)]
pub struct NetworkRow {
    pub block_index: u32,
    pub subnet: String,
    pub vm_name: String,
    /// [`STRATEGY_P2P`] or [`STRATEGY_SINGLE`].
    pub single_address: i64,
}

/// What a [`NetworkRow`] says.
pub struct Row {
    pub block_index: u32,
    pub subnet: Seq<char>,
    pub vm_name: Seq<char>,
    pub single_address: i64,
}

impl View for NetworkRow {
    type V = Row;

    open spec fn view(&self) -> Row {
        Row {
            block_index: self.block_index,
            subnet: self.subnet@,
            vm_name: self.vm_name@,
            single_address: self.single_address,
        }
    }
}

/// The recorded allocations, oldest first.
#[derive(Clone, Debug, PartialEq)]
pub struct NetworkTable {
    pub rows: Vec<NetworkRow>,
}

impl View for NetworkTable {
    type V = Seq<Row>;

    open spec fn view(&self) -> Seq<Row> {
        Seq::new(self.rows@.len(), |i: int| self.rows@[i]@)
    }
}

/// The keys of the table: no slot of a subnet and no VM name occurs twice.
pub open spec fn unique(t: Seq<Row>) -> bool {
    &&& forall|i: int, j: int|
        0 <= i < j < t.len() ==> !(#[trigger] t[i].subnet == #[trigger] t[j].subnet
            && t[i].block_index == t[j].block_index)
    &&& forall|i: int, j: int|
        0 <= i < j < t.len() ==> #[trigger] t[i].vm_name != #[trigger] t[j].vm_name
}

/// Every row is of the given subnet and strategy.
pub open spec fn singleton(t: Seq<Row>, subnet: Seq<char>, strategy: i64) -> bool {
    forall|i: int|
        0 <= i < t.len() ==> #[trigger] t[i].subnet == subnet && t[i].single_address == strategy
}

/// Whether a VM has a row.
pub open spec fn has_vm(t: Seq<Row>, vm_name: Seq<char>) -> bool {
    exists|i: int| 0 <= i < t.len() && #[trigger] t[i].vm_name == vm_name
}

/// The slots of a subnet that rows take.
pub open spec fn used_slots(t: Seq<Row>, subnet: Seq<char>) -> Set<u32>
    decreases t.len(),
{
    if t.len() == 0 {
        Set::empty()
    } else if t.last().subnet == subnet {
        used_slots(t.drop_last(), subnet).insert(t.last().block_index)
    } else {
        used_slots(t.drop_last(), subnet)
    }
}

/// A slot is used exactly where a row of the subnet holds it.
pub proof fn lemma_used_slots(t: Seq<Row>, subnet: Seq<char>, i: u32)
    ensures
        used_slots(t, subnet).contains(i) <==> exists|k: int|
            0 <= k < t.len() && #[trigger] t[k].subnet == subnet && t[k].block_index == i,
        used_slots(t, subnet).finite(),
    decreases t.len(),
{
    if t.len() > 0 {
        let b = t.drop_last();
        lemma_used_slots(b, subnet, i);
        if used_slots(t, subnet).contains(i) {
            if t.last().subnet == subnet && t.last().block_index == i {
                assert(t[t.len() - 1].subnet == subnet);
            } else {
                let k = choose|k: int|
                    0 <= k < b.len() && #[trigger] b[k].subnet == subnet && b[k].block_index == i;
                assert(t[k].subnet == subnet);
            }
        }
        if exists|k: int|
            0 <= k < t.len() && #[trigger] t[k].subnet == subnet && t[k].block_index == i {
            let k = choose|k: int|
                0 <= k < t.len() && #[trigger] t[k].subnet == subnet && t[k].block_index == i;
            if k < t.len() - 1 {
                assert(b[k].subnet == subnet);
            }
        }
    }
}

pub open spec fn strategy_text(s: i64) -> Seq<char> {
    if s == STRATEGY_P2P {
        "/30 P2P (allocate)"@
    } else if s == STRATEGY_SINGLE {
        "single-address (allocate_single)"@
    } else {
        "unknown"@
    }
}

/// How a strategy is named in messages.
pub fn strategy_name(s: i64) -> (r: &'static str)
    ensures
        r@ == strategy_text(s),
{
    if s == STRATEGY_P2P {
        "/30 P2P (allocate)"
    } else if s == STRATEGY_SINGLE {
        "single-address (allocate_single)"
    } else {
        "unknown"
    }
}

/// What speaks against a request: the first row is of another subnet or of
/// another strategy.
pub open spec fn mismatch(t: Seq<Row>, subnet: Seq<char>, strategy: i64) -> Option<Seq<char>> {
    if t.len() == 0 {
        None
    } else if t[0].subnet != subnet {
        Some("subnet mismatch: state has '"@ + t[0].subnet + "', requested '"@ + subnet + "'"@)
    } else if t[0].single_address != strategy {
        Some(
            "allocation strategy mismatch: state uses "@ + strategy_text(t[0].single_address)
                + " but caller requested "@ + strategy_text(strategy),
        )
    } else {
        None
    }
}

/// Checks that the recorded subnet and strategy are the caller's.
pub fn verify_singleton_subnet(
    table: &NetworkTable,
    subnet: &str,
    expected_strategy: i64,
) -> (r: Result<(), Error>)
    ensures
        match r {
            Ok(_) => mismatch(table@, subnet@, expected_strategy) is None,
            Err(e) => mismatch(table@, subnet@, expected_strategy) is Some && error::is_network(
                e,
                mismatch(table@, subnet@, expected_strategy)->0,
            ),
        },
{
    if table.rows.len() == 0 {
        return Ok(());
    }
    let row = &table.rows[0];
    assert(table@[0] == row@);
    if !text::same(row.subnet.as_str(), subnet) {
        return Err(
            Error::Network(
                text::cat5(
                    "subnet mismatch: state has '",
                    row.subnet.as_str(),
                    "', requested '",
                    subnet,
                    "'",
                ),
            ),
        );
    }
    if row.single_address != expected_strategy {
        return Err(
            Error::Network(
                text::cat4(
                    "allocation strategy mismatch: state uses ",
                    strategy_name(row.single_address),
                    " but caller requested ",
                    strategy_name(expected_strategy),
                ),
            ),
        );
    }
    Ok(())
}

fn collect_used(table: &NetworkTable, subnet: &str) -> (used: HashSet<u32>)
    ensures
        used@ == used_slots(table@, subnet@),
        used.len() == used_slots(table@, subnet@).len(),
{
    let mut used: HashSet<u32> = HashSet::new();
    let mut i: usize = 0;
    assert(table@.take(0) =~= Seq::<Row>::empty());
    while i < table.rows.len()
        invariant
            i <= table.rows.len(),
            used@ == used_slots(table@.take(i as int), subnet@),
        decreases table.rows.len() - i,
    {
        proof {
            let t = table@.take(i + 1);
            assert(t.drop_last() =~= table@.take(i as int));
            assert(t.last() == table.rows@[i as int]@);
        }
        if text::same(table.rows[i].subnet.as_str(), subnet) {
            used.insert(table.rows[i].block_index);
        }
        i += 1;
    }
    assert(table@.take(table@.len() as int) =~= table@);
    used
}

fn vm_recorded(table: &NetworkTable, vm_name: &str) -> (r: bool)
    ensures
        r == has_vm(table@, vm_name@),
{
    let mut i: usize = 0;
    while i < table.rows.len()
        invariant
            i <= table.rows.len(),
            forall|j: int| 0 <= j < i ==> #[trigger] table@[j].vm_name != vm_name@,
        decreases table.rows.len() - i,
    {
        assert(table@[i as int] == table.rows@[i as int]@);
        if text::same(table.rows[i].vm_name.as_str(), vm_name) {
            assert(table@[i as int].vm_name == vm_name@);
            return true;
        }
        i += 1;
    }
    false
}

// --------------------------------------------------------------- allocating

/// Whether slot `i` can be handed out: no row holds it, the caller does not
/// exclude it, and its address is not reserved.
pub open spec fn usable(
    used: Set<u32>,
    exclude: Set<u32>,
    reserved: Seq<u32>,
    base: u32,
    i: u32,
) -> bool {
    !used.contains(i) && !exclude.contains(i) && !reserved.contains((base + i) as u32)
}

/// Whether `i` is the lowest slot below `max` that can be handed out.
pub open spec fn lowest(
    used: Set<u32>,
    exclude: Set<u32>,
    reserved: Seq<u32>,
    base: u32,
    max: int,
    i: u32,
) -> bool {
    &&& i < max
    &&& usable(used, exclude, reserved, base, i)
    &&& forall|j: u32| j < i ==> !#[trigger] usable(used, exclude, reserved, base, j)
}

/// Whether no slot below `max` can be handed out.
pub open spec fn exhausted(
    used: Set<u32>,
    exclude: Set<u32>,
    reserved: Seq<u32>,
    base: u32,
    max: int,
) -> bool {
    forall|j: u32| j < max ==> !#[trigger] usable(used, exclude, reserved, base, j)
}

fn find_lowest(
    used: &HashSet<u32>,
    exclude: &HashSet<u32>,
    reserved: &[u32],
    base: u32,
    max: u32,
) -> (r: Option<u32>)
    requires
        base + max <= 0x1_0000_0000,
    ensures
        match r {
            Some(i) => lowest(used@, exclude@, reserved@, base, max as int, i),
            None => exhausted(used@, exclude@, reserved@, base, max as int),
        },
{
    let mut i: u32 = 0;
    while i < max
        invariant
            i <= max,
            base + max <= 0x1_0000_0000,
            forall|j: u32| j < i ==> !#[trigger] usable(used@, exclude@, reserved@, base, j),
        decreases max - i,
    {
        if !used.contains(&i) && !exclude.contains(&i) {
            let addr: u32 = base + i;
            let mut held = false;
            let mut k: usize = 0;
            while k < reserved.len()
                invariant
                    k <= reserved.len(),
                    held == reserved@.take(k as int).contains(addr),
                decreases reserved.len() - k,
            {
                proof {
                    let t = reserved@.take(k + 1);
                    assert(t =~= reserved@.take(k as int).push(reserved@[k as int]));
                    if reserved@.take(k as int).contains(addr) {
                        let m = choose|m: int| 0 <= m < k && reserved@.take(k as int)[m] == addr;
                        assert(t[m] == addr);
                    }
                    if reserved@[k as int] == addr {
                        assert(t[k as int] == addr);
                    }
                    if t.contains(addr) && reserved@[k as int] != addr {
                        let m = choose|m: int| 0 <= m < t.len() && t[m] == addr;
                        assert(reserved@.take(k as int)[m] == addr);
                    }
                }
                if reserved[k] == addr {
                    held = true;
                }
                k += 1;
            }
            assert(reserved@.take(reserved@.len() as int) =~= reserved@);
            if !held {
                return Some(i);
            }
        }
        i += 1;
    }
    None
}

/// Message for a subnet without a free `/30` block.
pub open spec fn no_block_text(
    subnet: Seq<char>,
    max: nat,
    used: nat,
    excluded: Set<u32>,
) -> Seq<char> {
    if excluded.is_empty() {
        "no free /30 blocks in "@ + subnet + " (all "@ + text::dec(max) + " blocks allocated)"@
    } else {
        "no usable /30 blocks in "@ + subnet + ": "@ + text::dec(used) + " allocated, "@
            + text::dec(excluded.len())
            + " poisoned (transient VZ start failures) — try 'ember network reset' or reboot"@
    }
}

/// Message for a subnet without a free address.
pub open spec fn no_address_text(
    subnet: Seq<char>,
    used: nat,
    reserved: nat,
    excluded: Set<u32>,
) -> Seq<char> {
    if excluded.is_empty() {
        "no free addresses in "@ + subnet + " ("@ + text::dec(used) + " allocated, "@ + text::dec(
            reserved,
        ) + " reserved)"@
    } else {
        "no usable addresses in "@ + subnet + ": "@ + text::dec(used) + " allocated, "@ + text::dec(
            reserved,
        ) + " reserved, "@ + text::dec(excluded.len())
            + " poisoned (transient VZ start failures) — try 'ember network reset' or reboot"@
    }
}

/// What the database says of a VM name that is recorded already.
pub open spec fn duplicate_name_text() -> Seq<char> {
    "UNIQUE constraint failed: network_allocations.vm_name"@
}

/// What recording slot `i` for a VM makes of the table and the result.
pub open spec fn recorded(
    before: Seq<Row>,
    after: Seq<Row>,
    subnet: Seq<char>,
    vm_name: Seq<char>,
    strategy: i64,
    r: Result<IpAllocation, Error>,
) -> bool {
    if has_vm(before, vm_name) {
        after == before && r is Err && error::is_sqlite(r->Err_0, duplicate_name_text())
    } else {
        r is Ok && after == before.push(
            Row { block_index: r->Ok_0.block_index, subnet, vm_name, single_address: strategy },
        )
    }
}

fn record(
    table: &mut NetworkTable,
    block_index: u32,
    subnet: &str,
    vm_name: &str,
    strategy: i64,
) -> (r: Result<(), Error>)
    ensures
        match r {
            Ok(_) => !has_vm(old(table)@, vm_name@) && final(table)@ == old(table)@.push(
                Row {
                    block_index,
                    subnet: subnet@,
                    vm_name: vm_name@,
                    single_address: strategy,
                },
            ),
            Err(e) => has_vm(old(table)@, vm_name@) && final(table)@ == old(table)@
                && error::is_sqlite(e, duplicate_name_text()),
        },
{
    if vm_recorded(table, vm_name) {
        return Err(
            Error::Sqlite("UNIQUE constraint failed: network_allocations.vm_name".to_owned()),
        );
    }
    let row = NetworkRow {
        block_index,
        subnet: subnet.to_owned(),
        vm_name: vm_name.to_owned(),
        single_address: strategy,
    };
    table.rows.push(row);
    assert(table@ =~= old(table)@.push(row@));
    Ok(())
}

/// Everything that [`allocate`] promises.
pub open spec fn allocated(
    before: Seq<Row>,
    after: Seq<Row>,
    subnet: Seq<char>,
    vm_name: Seq<char>,
    exclude: Set<u32>,
    r: Result<IpAllocation, Error>,
) -> bool {
    match cidr(subnet) {
        Err(m) => after == before && r is Err && error::is_network(r->Err_0, m),
        Ok((base, prefix)) => if prefix > 30 {
            after == before && r is Err && error::is_network(
                r->Err_0,
                "subnet /"@ + text::dec(prefix as nat) + " is too small for /30 allocations"@,
            )
        } else if mismatch(before, subnet, STRATEGY_P2P) is Some {
            after == before && r is Err && error::is_network(
                r->Err_0,
                mismatch(before, subnet, STRATEGY_P2P)->0,
            )
        } else {
            let used = used_slots(before, subnet);
            let max = blocks_in(prefix);
            if exhausted(used, exclude, Seq::empty(), base, max as int) {
                after == before && r is Err && error::is_network(
                    r->Err_0,
                    no_block_text(subnet, max, used.len(), exclude),
                )
            } else {
                &&& recorded(before, after, subnet, vm_name, STRATEGY_P2P, r)
                &&& r matches Ok(a) ==> {
                    &&& lowest(used, exclude, Seq::empty(), base, max as int, a.block_index)
                    &&& a.host_ip@ == ip_text(block_host(base, a.block_index))
                    &&& a.guest_ip@ == ip_text(block_guest(base, a.block_index))
                    &&& a.netmask@ == "255.255.255.252"@
                }
            }
        },
    }
}

/// Allocates the lowest free `/30` block for a VM, skipping the excluded ones,
/// and records it.
pub fn allocate(
    table: &mut NetworkTable,
    subnet: &str,
    vm_name: &str,
    exclude: &HashSet<u32>,
) -> (r: Result<IpAllocation, Error>)
    ensures
        allocated(old(table)@, final(table)@, subnet@, vm_name@, exclude@, r),
{
    let (base, prefix) = match parse_cidr(subnet) {
        Ok(v) => v,
        Err(e) => return Err(e),
    };
    if prefix > 30 {
        return Err(
            Error::Network(
                text::cat3(
                    "subnet /",
                    text::dec_u64(prefix as u64).as_str(),
                    " is too small for /30 allocations",
                ),
            ),
        );
    }
    let max: u32 = max_blocks(prefix);
    match verify_singleton_subnet(table, subnet, STRATEGY_P2P) {
        Ok(_) => {},
        Err(e) => return Err(e),
    }
    let used = collect_used(table, subnet);
    let none: [u32; 0] = [];
    assert(none@ =~= Seq::<u32>::empty());
    match find_lowest(&used, exclude, &none, base, max) {
        None => {
            if exclude.is_empty() {
                Err(
                    Error::Network(
                        text::cat5(
                            "no free /30 blocks in ",
                            subnet,
                            " (all ",
                            text::dec_u64(max as u64).as_str(),
                            " blocks allocated)",
                        ),
                    ),
                )
            } else {
                Err(
                    Error::Network(
                        text::cat7(
                            "no usable /30 blocks in ",
                            subnet,
                            ": ",
                            text::dec_u64(used.len() as u64).as_str(),
                            " allocated, ",
                            text::dec_u64(exclude.len() as u64).as_str(),
                            " poisoned (transient VZ start failures) — try 'ember network reset' or reboot",
                        ),
                    ),
                )
            }
        },
        Some(block_index) => {
            assert(usable(used@, exclude@, Seq::<u32>::empty(), base, block_index));
            match record(table, block_index, subnet, vm_name, STRATEGY_P2P) {
                Ok(_) => Ok(block_ips(base, block_index)),
                Err(e) => Err(e),
            }
        },
    }
}

/// Everything that [`allocate_single`] promises.
pub open spec fn allocated_single(
    before: Seq<Row>,
    after: Seq<Row>,
    subnet: Seq<char>,
    vm_name: Seq<char>,
    host_ip: Seq<char>,
    netmask: Seq<char>,
    reserved: Seq<u32>,
    exclude: Set<u32>,
    r: Result<IpAllocation, Error>,
) -> bool {
    match cidr(subnet) {
        Err(m) => after == before && r is Err && error::is_network(r->Err_0, m),
        Ok((base, prefix)) => if mismatch(before, subnet, STRATEGY_SINGLE) is Some {
            after == before && r is Err && error::is_network(
                r->Err_0,
                mismatch(before, subnet, STRATEGY_SINGLE)->0,
            )
        } else {
            let used = used_slots(before, subnet);
            let max = cidr_size(prefix);
            if exhausted(used, exclude, reserved, base, max as int) {
                after == before && r is Err && error::is_network(
                    r->Err_0,
                    no_address_text(subnet, used.len(), reserved.len(), exclude),
                )
            } else {
                &&& recorded(before, after, subnet, vm_name, STRATEGY_SINGLE, r)
                &&& r matches Ok(a) ==> {
                    &&& lowest(used, exclude, reserved, base, max as int, a.block_index)
                    &&& a.host_ip@ == host_ip
                    &&& a.guest_ip@ == ip_text((base + a.block_index) as u32)
                    &&& a.netmask@ == netmask
                }
            }
        },
    }
}

/// Allocates the lowest free address of a shared subnet for a VM, skipping the
/// excluded slots and the reserved addresses, and records it.
///
/// `host_ip` and `netmask` are returned as they are. The subnet must be smaller
/// than the whole address space.
pub fn allocate_single(
    table: &mut NetworkTable,
    subnet: &str,
    vm_name: &str,
    host_ip: &str,
    netmask: &str,
    reserved: &[u32],
    exclude: &HashSet<u32>,
) -> (r: Result<IpAllocation, Error>)
    requires
        cidr(subnet@) matches Ok((_, prefix)) ==> prefix > 0,
    ensures
        allocated_single(
            old(table)@,
            final(table)@,
            subnet@,
            vm_name@,
            host_ip@,
            netmask@,
            reserved@,
            exclude@,
            r,
        ),
{
    let (base, prefix) = match parse_cidr(subnet) {
        Ok(v) => v,
        Err(e) => return Err(e),
    };
    let size: u64 = power_of_two(32 - prefix as u32);
    proof {
        vstd::arithmetic::power2::lemma2_to64();
        vstd::arithmetic::power2::lemma_pow2_strictly_increases((32 - prefix) as nat, 32);
    }
    let max: u32 = size as u32;
    match verify_singleton_subnet(table, subnet, STRATEGY_SINGLE) {
        Ok(_) => {},
        Err(e) => return Err(e),
    }
    let used = collect_used(table, subnet);
    match find_lowest(&used, exclude, reserved, base, max) {
        None => {
            if exclude.is_empty() {
                Err(
                    Error::Network(
                        text::cat7(
                            "no free addresses in ",
                            subnet,
                            " (",
                            text::dec_u64(used.len() as u64).as_str(),
                            " allocated, ",
                            text::dec_u64(reserved.len() as u64).as_str(),
                            " reserved)",
                        ),
                    ),
                )
            } else {
                let head = text::cat7(
                    "no usable addresses in ",
                    subnet,
                    ": ",
                    text::dec_u64(used.len() as u64).as_str(),
                    " allocated, ",
                    text::dec_u64(reserved.len() as u64).as_str(),
                    " reserved, ",
                );
                Err(
                    Error::Network(
                        text::cat3(
                            head.as_str(),
                            text::dec_u64(exclude.len() as u64).as_str(),
                            " poisoned (transient VZ start failures) — try 'ember network reset' or reboot",
                        ),
                    ),
                )
            }
        },
        Some(block_index) => {
            assert(usable(used@, exclude@, reserved@, base, block_index));
            match record(table, block_index, subnet, vm_name, STRATEGY_SINGLE) {
                Ok(_) => Ok(
                    IpAllocation {
                        block_index,
                        host_ip: host_ip.to_owned(),
                        guest_ip: ip_to_string(base + block_index),
                        netmask: netmask.to_owned(),
                    },
                ),
                Err(e) => Err(e),
            }
        },
    }
}

// ------------------------------------------------------------------ reading

/// The slot of the first row of a VM.
pub open spec fn slot_of(t: Seq<Row>, vm_name: Seq<char>) -> Option<u32>
    decreases t.len(),
{
    if t.len() == 0 {
        None
    } else if t[0].vm_name == vm_name {
        Some(t[0].block_index)
    } else {
        slot_of(t.skip(1), vm_name)
    }
}

/// The block index allocated to a VM, if any.
pub fn allocated_block(table: &NetworkTable, vm_name: &str) -> (r: Option<u32>)
    ensures
        r == slot_of(table@, vm_name@),
{
    let mut i: usize = 0;
    assert(table@.skip(0) =~= table@);
    while i < table.rows.len()
        invariant
            i <= table.rows.len(),
            slot_of(table@.skip(i as int), vm_name@) == slot_of(table@, vm_name@),
        decreases table.rows.len() - i,
    {
        proof {
            assert(table@.skip(i as int)[0] == table.rows@[i as int]@);
            assert(table@.skip(i as int).skip(1) =~= table@.skip(i + 1));
        }
        if text::same(table.rows[i].vm_name.as_str(), vm_name) {
            return Some(table.rows[i].block_index);
        }
        i += 1;
    }
    None
}

/// The rows of all VMs but one.
pub open spec fn without(t: Seq<Row>, vm_name: Seq<char>) -> Seq<Row>
    decreases t.len(),
{
    if t.len() == 0 {
        Seq::empty()
    } else if t.last().vm_name == vm_name {
        without(t.drop_last(), vm_name)
    } else {
        without(t.drop_last(), vm_name).push(t.last())
    }
}

fn copy_row(row: &NetworkRow) -> (r: NetworkRow)
    ensures
        r@ == row@,
{
    NetworkRow {
        block_index: row.block_index,
        subnet: row.subnet.clone(),
        vm_name: row.vm_name.clone(),
        single_address: row.single_address,
    }
}

/// Releases the allocation of a VM. Does nothing where it has none.
pub fn release(table: &mut NetworkTable, vm_name: &str)
    ensures
        final(table)@ == without(old(table)@, vm_name@),
{
    let ghost t = table@;
    let mut kept = NetworkTable { rows: Vec::new() };
    let mut i: usize = 0;
    assert(t.take(0) =~= Seq::<Row>::empty());
    assert(kept@ =~= Seq::<Row>::empty());
    while i < table.rows.len()
        invariant
            i <= table.rows.len(),
            t == table@,
            kept@ == without(t.take(i as int), vm_name@),
        decreases table.rows.len() - i,
    {
        let ghost before = kept@;
        proof {
            assert(t.take(i + 1).drop_last() =~= t.take(i as int));
            assert(t.take(i + 1).last() == table.rows@[i as int]@);
        }
        if !text::same(table.rows[i].vm_name.as_str(), vm_name) {
            let row = copy_row(&table.rows[i]);
            kept.rows.push(row);
            assert(kept@ =~= before.push(row@));
        }
        i += 1;
    }
    assert(t.take(t.len() as int) =~= t);
    table.rows = kept.rows;
    assert(table@ =~= kept@);
}

/// One row of the allocation table, with addresses resolved.
#[derive(Debug, PartialEq)]
pub struct AllocationRow {
    pub block_index: u32,
    pub subnet: String,
    pub vm_name: String,
    pub host_ip: String,
    pub guest_ip: String,
    /// True for a row of [`allocate_single`], false for a `/30` block.
    pub single_address: bool,
}

/// What an [`AllocationRow`] says.
pub struct Listed {
    pub block_index: u32,
    pub subnet: Seq<char>,
    pub vm_name: Seq<char>,
    pub host_ip: Seq<char>,
    pub guest_ip: Seq<char>,
    pub single_address: bool,
}

impl View for AllocationRow {
    type V = Listed;

    open spec fn view(&self) -> Listed {
        Listed {
            block_index: self.block_index,
            subnet: self.subnet@,
            vm_name: self.vm_name@,
            host_ip: self.host_ip@,
            guest_ip: self.guest_ip@,
            single_address: self.single_address,
        }
    }
}

pub open spec fn listed_views(v: Seq<AllocationRow>) -> Seq<Listed> {
    Seq::new(v.len(), |i: int| v[i]@)
}

/// A row whose subnet parses, with its addresses. For a single address the host
/// is shown as the first address above the base.
pub open spec fn resolved(row: Row) -> Listed {
    let base = cidr(row.subnet)->Ok_0.0;
    let single = row.single_address == STRATEGY_SINGLE;
    Listed {
        block_index: row.block_index,
        subnet: row.subnet,
        vm_name: row.vm_name,
        host_ip: if single {
            ip_text((base + 1) as u32)
        } else {
            ip_text(block_host(base, row.block_index))
        },
        guest_ip: if single {
            ip_text((base + row.block_index) as u32)
        } else {
            ip_text(block_guest(base, row.block_index))
        },
        single_address: single,
    }
}

/// The addresses of a row lie in the address space.
pub open spec fn addressable(row: Row) -> bool {
    cidr(row.subnet) matches Ok((base, _)) ==> if row.single_address == STRATEGY_SINGLE {
        base + 1 <= u32::MAX && base + row.block_index <= u32::MAX
    } else {
        base + 4 * row.block_index + 2 <= u32::MAX
    }
}

/// Whether the addresses of every row lie in the address space.
pub fn all_addressable(table: &NetworkTable) -> (r: bool)
    ensures
        r == (forall|i: int| 0 <= i < table@.len() ==> addressable(#[trigger] table@[i])),
{
    let mut i: usize = 0;
    while i < table.rows.len()
        invariant
            i <= table.rows.len(),
            forall|j: int| 0 <= j < i ==> addressable(#[trigger] table@[j]),
        decreases table.rows.len() - i,
    {
        assert(table@[i as int] == table.rows@[i as int]@);
        if let Ok((base, _)) = parse_cidr(table.rows[i].subnet.as_str()) {
            let b: u64 = base as u64;
            let k: u64 = table.rows[i].block_index as u64;
            let fits = if table.rows[i].single_address == STRATEGY_SINGLE {
                b + 1 <= 0xffff_ffff && b + k <= 0xffff_ffff
            } else {
                b + 4 * k + 2 <= 0xffff_ffff
            };
            if !fits {
                assert(!addressable(table@[i as int]));
                return false;
            }
        }
        i += 1;
    }
    true
}

/// Order by subnet, then block index.
pub open spec fn listed_before(a: Listed, b: Listed) -> bool {
    text::str_less(a.subnet, b.subnet) || (a.subnet == b.subnet && a.block_index < b.block_index)
}

pub open spec fn in_order(v: Seq<Listed>) -> bool {
    forall|i: int, j: int| 0 <= i < j < v.len() ==> !listed_before(#[trigger] v[j], #[trigger] v[i])
}

proof fn lemma_not_before_transitive(a: Listed, b: Listed, c: Listed)
    requires
        !listed_before(b, a),
        !listed_before(c, b),
    ensures
        !listed_before(c, a),
{
    text::lemma_str_less_total(a.subnet, b.subnet);
    text::lemma_str_less_total(b.subnet, c.subnet);
    text::lemma_str_less_total(a.subnet, c.subnet);
    if text::str_less(a.subnet, b.subnet) && text::str_less(b.subnet, c.subnet) {
        text::lemma_str_less_transitive(a.subnet, b.subnet, c.subnet);
    }
}

fn resolve(row: &NetworkRow, base: u32) -> (r: AllocationRow)
    requires
        addressable(row@),
        cidr(row@.subnet) is Ok,
        cidr(row@.subnet)->Ok_0.0 == base,
    ensures
        r@ == resolved(row@),
{
    let single = row.single_address == STRATEGY_SINGLE;
    let (host_ip, guest_ip) = if single {
        (ip_to_string(base + 1), ip_to_string(base + row.block_index))
    } else {
        let ips = block_ips(base, row.block_index);
        (ips.host_ip, ips.guest_ip)
    };
    AllocationRow {
        block_index: row.block_index,
        subnet: row.subnet.clone(),
        vm_name: row.vm_name.clone(),
        host_ip,
        guest_ip,
        single_address: single,
    }
}

fn comes_before(a: &AllocationRow, b: &AllocationRow) -> (r: bool)
    ensures
        r == listed_before(a@, b@),
{
    text::less(a.subnet.as_str(), b.subnet.as_str()) || (text::same(
        a.subnet.as_str(),
        b.subnet.as_str(),
    ) && a.block_index < b.block_index)
}

fn insert_in_order(out: &mut Vec<AllocationRow>, row: AllocationRow)
    requires
        in_order(listed_views(old(out)@)),
    ensures
        in_order(listed_views(final(out)@)),
        listed_views(final(out)@).to_multiset() == listed_views(old(out)@).to_multiset().insert(
            row@,
        ),
{
    let ghost v = listed_views(out@);
    let mut k: usize = out.len();
    while k > 0 && comes_before(&row, &out[k - 1])
        invariant
            k <= out.len(),
            v == listed_views(out@),
            forall|j: int| k <= j < out.len() ==> listed_before(row@, #[trigger] v[j]),
        decreases k,
    {
        assert(v[k - 1] == out@[k - 1]@);
        k -= 1;
    }
    let ghost w = v.insert(k as int, row@);
    proof {
        vstd::seq_lib::to_multiset_insert(v, k as int, row@);
        assert(k > 0 ==> v[k - 1] == out@[k - 1]@);
        assert forall|i: int, j: int| 0 <= i < j < w.len() implies !listed_before(
            #[trigger] w[j],
            #[trigger] w[i],
        ) by {
            if j < k {
                assert(w[j] == v[j] && w[i] == v[i]);
            } else if i > k {
                assert(w[j] == v[j - 1] && w[i] == v[i - 1]);
            } else if j == k {
                assert(w[i] == v[i]);
                if i < k - 1 {
                    lemma_not_before_transitive(v[i], v[k - 1], row@);
                }
            } else if i == k {
                assert(w[j] == v[j - 1]);
                text::lemma_str_less_total(row@.subnet, v[j - 1].subnet);
            } else {
                assert(w[j] == v[j - 1] && w[i] == v[i]);
            }
        }
    }
    out.insert(k, row);
    assert(listed_views(out@) =~= w);
}

/// The rows of the table, resolved.
pub open spec fn resolved_rows(t: Seq<Row>) -> Seq<Listed> {
    Seq::new(t.len(), |i: int| resolved(t[i]))
}

/// Lists every recorded allocation, ordered by subnet, then block index.
///
/// Fails where the subnet of some row does not parse, with what is wrong with
/// the first such subnet in order.
pub fn list_allocations(table: &NetworkTable) -> (r: Result<Vec<AllocationRow>, Error>)
    requires
        forall|i: int| 0 <= i < table@.len() ==> addressable(#[trigger] table@[i]),
    ensures
        match r {
            Ok(v) => {
                &&& forall|i: int| 0 <= i < table@.len() ==> cidr((#[trigger] table@[i]).subnet) is Ok
                &&& in_order(listed_views(v@))
                &&& listed_views(v@).to_multiset() == resolved_rows(table@).to_multiset()
            },
            Err(e) => exists|i: int|
                {
                    &&& 0 <= i < table@.len()
                    &&& cidr((#[trigger] table@[i]).subnet) is Err
                    &&& error::is_network(e, cidr(table@[i].subnet)->Err_0)
                    &&& forall|j: int|
                        0 <= j < table@.len() && cidr((#[trigger] table@[j]).subnet) is Err
                            ==> !text::str_less(table@[j].subnet, table@[i].subnet)
                },
        },
{
    let mut bad: Option<(usize, Error)> = None;
    let mut i: usize = 0;
    while i < table.rows.len()
        invariant
            i <= table.rows.len(),
            match bad {
                None => forall|j: int| 0 <= j < i ==> cidr((#[trigger] table@[j]).subnet) is Ok,
                Some((k, e)) => {
                    &&& k < i
                    &&& cidr(table@[k as int].subnet) is Err
                    &&& error::is_network(e, cidr(table@[k as int].subnet)->Err_0)
                    &&& forall|j: int|
                        0 <= j < i && cidr((#[trigger] table@[j]).subnet) is Err
                            ==> !text::str_less(table@[j].subnet, table@[k as int].subnet)
                },
            },
        decreases table.rows.len() - i,
    {
        assert(table@[i as int] == table.rows@[i as int]@);
        match parse_cidr(table.rows[i].subnet.as_str()) {
            Ok(_) => {},
            Err(e) => {
                let better = match &bad {
                    None => true,
                    Some((k, _)) => {
                        assert(table@[*k as int] == table.rows@[*k as int]@);
                        text::less(table.rows[i].subnet.as_str(), table.rows[*k].subnet.as_str())
                    },
                };
                proof {
                    text::lemma_str_less_total(table@[i as int].subnet, table@[i as int].subnet);
                    if bad is Some && better {
                        let k = (bad->0).0 as int;
                        assert forall|j: int|
                            0 <= j < i && cidr((#[trigger] table@[j]).subnet) is Err implies !text::str_less(
                            table@[j].subnet,
                            table@[i as int].subnet,
                        ) by {
                            if text::str_less(table@[j].subnet, table@[i as int].subnet) {
                                text::lemma_str_less_transitive(
                                    table@[j].subnet,
                                    table@[i as int].subnet,
                                    table@[k].subnet,
                                );
                            }
                        }
                    }
                }
                if better {
                    bad = Some((i, e));
                }
            },
        }
        i += 1;
    }
    if let Some((k, e)) = bad {
        assert(cidr(table@[k as int].subnet) is Err);
        return Err(e);
    }
    let mut out: Vec<AllocationRow> = Vec::new();
    let mut n: usize = 0;
    proof {
        assert(resolved_rows(table@).take(0) =~= Seq::<Listed>::empty());
        assert(listed_views(out@) =~= Seq::<Listed>::empty());
    }
    while n < table.rows.len()
        invariant
            n <= table.rows.len(),
            forall|i: int| 0 <= i < table@.len() ==> addressable(#[trigger] table@[i]),
            forall|i: int| 0 <= i < table@.len() ==> cidr((#[trigger] table@[i]).subnet) is Ok,
            in_order(listed_views(out@)),
            listed_views(out@).to_multiset() == resolved_rows(table@).take(n as int).to_multiset(),
        decreases table.rows.len() - n,
    {
        assert(table@[n as int] == table.rows@[n as int]@);
        match parse_cidr(table.rows[n].subnet.as_str()) {
            Ok((base, _)) => {
                let row = resolve(&table.rows[n], base);
                proof {
                    let before = resolved_rows(table@).take(n as int);
                    assert(resolved_rows(table@).take(n + 1) =~= before.push(row@));
                    vstd::seq_lib::to_multiset_build(before, row@);
                }
                insert_in_order(&mut out, row);
            },
            Err(_) => {
                assert(false);
            },
        }
        n += 1;
    }
    assert(resolved_rows(table@).take(table@.len() as int) =~= resolved_rows(table@));
    Ok(out)
}

// ----------------------------------------------------------------- checking

/// One way in which the allocator state contradicts itself.
#[derive(Clone, Debug, PartialEq, Eq)]
pub struct Anomaly {
    pub kind: AnomalyKind,
    /// Rendering for operators.
    pub message: String,
    /// Every VM that the anomaly touches.
    pub vm_names: Vec<String>,
}

/// What kind of divergence an [`Anomaly`] describes.
#[derive(Clone, Debug, PartialEq, Eq)]
pub enum AnomalyKind {
    /// Two or more rows share the same subnet and block index.
    DuplicateSlot { subnet: String, block_index: u32, count: u32 },
    /// The same VM name appears in more than one row.
    DuplicateVmName { vm_name: String, count: u32 },
    /// Two VMs report the same guest address in their metadata. The table does
    /// not hold that metadata, so [`check_invariants`] never reports this one.
    DuplicateGuestIp { ip: String },
}

/// What an [`AnomalyKind`] says.
pub enum Finding {
    DuplicateSlot { subnet: Seq<char>, block_index: u32, count: u32 },
    DuplicateVmName { vm_name: Seq<char>, count: u32 },
    DuplicateGuestIp { ip: Seq<char> },
}

/// What an [`Anomaly`] says.
pub struct Report {
    pub kind: Finding,
    pub message: Seq<char>,
    pub vm_names: Seq<Seq<char>>,
}

impl View for Anomaly {
    type V = Report;

    open spec fn view(&self) -> Report {
        Report {
            kind: match self.kind {
                AnomalyKind::DuplicateSlot { subnet, block_index, count } => {
                    Finding::DuplicateSlot { subnet: subnet@, block_index, count }
                },
                AnomalyKind::DuplicateVmName { vm_name, count } => {
                    Finding::DuplicateVmName { vm_name: vm_name@, count }
                },
                AnomalyKind::DuplicateGuestIp { ip } => Finding::DuplicateGuestIp { ip: ip@ },
            },
            message: self.message@,
            vm_names: text::views(self.vm_names@),
        }
    }
}

pub open spec fn reports(v: Seq<Anomaly>) -> Seq<Report> {
    Seq::new(v.len(), |i: int| v[i]@)
}

/// Whether a row is in the given slot.
pub open spec fn in_slot(row: Row, subnet: Seq<char>, block_index: u32) -> bool {
    row.subnet == subnet && row.block_index == block_index
}

/// The names of the VMs in a slot.
pub open spec fn slot_names(t: Seq<Row>, subnet: Seq<char>, block_index: u32) -> Seq<Seq<char>>
    decreases t.len(),
{
    if t.len() == 0 {
        Seq::empty()
    } else if in_slot(t.last(), subnet, block_index) {
        slot_names(t.drop_last(), subnet, block_index).push(t.last().vm_name)
    } else {
        slot_names(t.drop_last(), subnet, block_index)
    }
}

/// How many rows a VM has.
pub open spec fn name_count(t: Seq<Row>, vm_name: Seq<char>) -> nat
    decreases t.len(),
{
    if t.len() == 0 {
        0
    } else {
        name_count(t.drop_last(), vm_name) + (if t.last().vm_name == vm_name {
            1nat
        } else {
            0
        })
    }
}

/// Whether no row before the `i`th is in the same slot.
pub open spec fn first_in_slot(t: Seq<Row>, i: int) -> bool {
    slot_names(t.take(i), t[i].subnet, t[i].block_index).len() == 0
}

/// Whether no row before the `i`th is of the same VM.
pub open spec fn first_of_name(t: Seq<Row>, i: int) -> bool {
    name_count(t.take(i), t[i].vm_name) == 0
}

/// The names in a slot as they are listed: a name that holds commas counts as
/// several, and empty names are left out.
pub open spec fn listed_names(names: Seq<Seq<char>>) -> Seq<Seq<char>> {
    text::nonempty(text::split_char(text::join(names, ","@), ','))
}

pub open spec fn slot_report(t: Seq<Row>, subnet: Seq<char>, block_index: u32) -> Report {
    let names = slot_names(t, subnet, block_index);
    Report {
        kind: Finding::DuplicateSlot { subnet, block_index, count: names.len() as u32 },
        message: "duplicate slot: subnet="@ + subnet + " block_index="@ + text::dec(
            block_index as nat,
        ) + " count="@ + text::dec(names.len()) + " vms="@ + text::join(listed_names(names), ","@),
        vm_names: listed_names(names),
    }
}

pub open spec fn name_report(t: Seq<Row>, vm_name: Seq<char>) -> Report {
    let n = name_count(t, vm_name);
    Report {
        kind: Finding::DuplicateVmName { vm_name, count: n as u32 },
        message: "duplicate vm_name: "@ + vm_name + " count="@ + text::dec(n),
        vm_names: seq![vm_name],
    }
}

/// One report for each slot of the first `n` rows that several rows hold.
pub open spec fn slot_reports(t: Seq<Row>, n: int) -> Seq<Report>
    decreases n,
{
    if n <= 0 {
        Seq::empty()
    } else {
        let before = slot_reports(t, n - 1);
        let row = t[n - 1];
        if first_in_slot(t, n - 1) && slot_names(t, row.subnet, row.block_index).len() > 1 {
            before.push(slot_report(t, row.subnet, row.block_index))
        } else {
            before
        }
    }
}

/// One report for each VM of the first `n` rows that has several rows.
pub open spec fn name_reports(t: Seq<Row>, n: int) -> Seq<Report>
    decreases n,
{
    if n <= 0 {
        Seq::empty()
    } else {
        let before = name_reports(t, n - 1);
        if first_of_name(t, n - 1) && name_count(t, t[n - 1].vm_name) > 1 {
            before.push(name_report(t, t[n - 1].vm_name))
        } else {
            before
        }
    }
}

fn names_in_slot(table: &NetworkTable, n: usize, subnet: &str, block_index: u32) -> (r: Vec<String>)
    requires
        n <= table.rows.len(),
    ensures
        text::views(r@) == slot_names(table@.take(n as int), subnet@, block_index),
{
    let mut out: Vec<String> = Vec::new();
    let mut i: usize = 0;
    assert(table@.take(0) =~= Seq::<Row>::empty());
    assert(text::views(out@) =~= Seq::<Seq<char>>::empty());
    while i < n
        invariant
            i <= n <= table.rows.len(),
            text::views(out@) == slot_names(table@.take(i as int), subnet@, block_index),
        decreases n - i,
    {
        proof {
            assert(table@.take(i + 1).drop_last() =~= table@.take(i as int));
            assert(table@.take(i + 1).last() == table.rows@[i as int]@);
        }
        if text::same(table.rows[i].subnet.as_str(), subnet) && table.rows[i].block_index
            == block_index {
            let s = table.rows[i].vm_name.clone();
            proof {
                text::lemma_views_push(out@, s);
            }
            out.push(s);
        }
        i += 1;
    }
    out
}

fn rows_of_name(table: &NetworkTable, n: usize, vm_name: &str) -> (r: usize)
    requires
        n <= table.rows.len(),
    ensures
        r == name_count(table@.take(n as int), vm_name@),
{
    let mut c: usize = 0;
    let mut i: usize = 0;
    assert(table@.take(0) =~= Seq::<Row>::empty());
    while i < n
        invariant
            i <= n <= table.rows.len(),
            c <= i,
            c == name_count(table@.take(i as int), vm_name@),
        decreases n - i,
    {
        proof {
            assert(table@.take(i + 1).drop_last() =~= table@.take(i as int));
            assert(table@.take(i + 1).last() == table.rows@[i as int]@);
        }
        if text::same(table.rows[i].vm_name.as_str(), vm_name) {
            c += 1;
        }
        i += 1;
    }
    c
}

fn describe_slot(subnet: &String, block_index: u32, names: Vec<String>, table: &NetworkTable) -> (r:
    Anomaly)
    requires
        text::views(names@) == slot_names(table@, subnet@, block_index),
    ensures
        r@ == slot_report(table@, subnet@, block_index),
{
    let n: usize = names.len();
    assert(text::views(names@).len() == n);
    let joined = text::join_strings(&names, ",");
    let vm_names = text::keep_nonempty(text::split(joined.as_str(), ','));
    let vms = text::join_strings(&vm_names, ",");
    let message = text::cat8(
        "duplicate slot: subnet=",
        subnet.as_str(),
        " block_index=",
        text::dec_u64(block_index as u64).as_str(),
        " count=",
        text::dec_u64(n as u64).as_str(),
        " vms=",
        vms.as_str(),
    );
    Anomaly {
        kind: AnomalyKind::DuplicateSlot { subnet: subnet.clone(), block_index, count: n as u32 },
        message,
        vm_names,
    }
}

fn describe_name(vm_name: &String, n: usize, table: &NetworkTable) -> (r: Anomaly)
    requires
        n == name_count(table@, vm_name@),
    ensures
        r@ == name_report(table@, vm_name@),
{
    let message = text::cat4(
        "duplicate vm_name: ",
        vm_name.as_str(),
        " count=",
        text::dec_u64(n as u64).as_str(),
    );
    let mut vm_names: Vec<String> = Vec::new();
    vm_names.push(vm_name.clone());
    assert(text::views(vm_names@) =~= seq![vm_name@]);
    Anomaly {
        kind: AnomalyKind::DuplicateVmName { vm_name: vm_name.clone(), count: n as u32 },
        message,
        vm_names,
    }
}

/// Checks that the allocator state is consistent with itself: the anomalies
/// found, slots first, each where it first shows in the table. A healthy table
/// has none.
pub fn check_invariants(table: &NetworkTable) -> (r: Vec<Anomaly>)
    ensures
        reports(r@) == slot_reports(table@, table@.len() as int) + name_reports(
            table@,
            table@.len() as int,
        ),
{
    let mut out: Vec<Anomaly> = Vec::new();
    let len: usize = table.rows.len();
    let ghost t = table@;
    assert(t.take(t.len() as int) =~= t);
    let mut i: usize = 0;
    assert(reports(out@) =~= Seq::<Report>::empty());
    while i < len
        invariant
            i <= len == table.rows.len(),
            t == table@,
            t.take(t.len() as int) == t,
            reports(out@) == slot_reports(t, i as int),
        decreases len - i,
    {
        let row = &table.rows[i];
        assert(t[i as int] == row@);
        let before = names_in_slot(table, i, row.subnet.as_str(), row.block_index);
        assert(text::views(before@).len() == before.len());
        if before.len() == 0 {
            let names = names_in_slot(table, len, row.subnet.as_str(), row.block_index);
            assert(text::views(names@).len() == names.len());
            if names.len() > 1 {
                let a = describe_slot(&row.subnet, row.block_index, names, table);
                let ghost old_reports = reports(out@);
                out.push(a);
                assert(reports(out@) =~= old_reports.push(a@));
            }
        }
        i += 1;
    }
    let ghost slots = reports(out@);
    let mut k: usize = 0;
    assert(slots + name_reports(t, 0) =~= slots);
    while k < len
        invariant
            k <= len == table.rows.len(),
            t == table@,
            t.take(t.len() as int) == t,
            reports(out@) == slots + name_reports(t, k as int),
        decreases len - k,
    {
        let row = &table.rows[k];
        assert(t[k as int] == row@);
        if rows_of_name(table, k, row.vm_name.as_str()) == 0 {
            let n: usize = rows_of_name(table, len, row.vm_name.as_str());
            if n > 1 {
                let a = describe_name(&row.vm_name, n, table);
                let ghost old_reports = reports(out@);
                out.push(a);
                assert(reports(out@) =~= old_reports.push(a@));
                assert(reports(out@) =~= slots + name_reports(t, k + 1));
            }
        }
        k += 1;
    }
    out
}

} // verus!
