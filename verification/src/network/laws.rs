//! What addresses, links and devices have to do with each other.
use crate::error::Error;
use crate::network::ip::{IpAllocation, Row};
use crate::network::{egress, ip, ip_laws, masquerade, tap};
use crate::text;
use crate::text_laws;
use vstd::prelude::*;

verus! {

/// The two ends of a link are the two addresses that a `/30` leaves for hosts: they
/// lie in one `/30`, the host's before the guest's, and neither is the first or the
/// last address of it.
pub proof fn law_link_is_one_subnet(base: u32, i: u32)
    requires
        base % 4 == 0,
        base + 4 * i + 3 <= u32::MAX,
    ensures
        ip::block_host(base, i) / 4 == ip::block_guest(base, i) / 4,
        ip::block_host(base, i) / 4 == base / 4 + i,
        ip::block_host(base, i) % 4 == 1,
        ip::block_guest(base, i) % 4 == 2,
        ip::block_host(base, i) & 0xffff_fffc == ip::block_guest(base, i) & 0xffff_fffc,
{
    let h = ip::block_host(base, i);
    let g = ip::block_guest(base, i);
    let q = base / 4 + i;
    assert(h == 4 * q + 1);
    assert(g == 4 * q + 2);
    assert(h / 4 == q && g / 4 == q && h % 4 == 1 && g % 4 == 2);
    assert(h & 0xffff_fffc == g & 0xffff_fffc) by (bit_vector)
        requires
            h / 4 == g / 4,
    ;
}

/// The mask of a link is that of a `/30`.
pub proof fn law_link_mask()
    ensures
        ip::ipv4("255.255.255.252"@) == Some(0xffff_fffcu32),
{
    let a: u32 = 0xffff_fffc;
    ip_laws::law_ip_text_round_trip(a);
    reveal_strlit("255.255.255.252");
    reveal_strlit(".");
    reveal_with_fuel(text::dec, 4);
    assert(a / 0x100_0000 == 255 && a / 0x1_0000 % 0x100 == 255 && a / 0x100 % 0x100 == 255);
    assert(a % 0x100 == 252);
    assert(text::dec(255) =~= seq!['2', '5', '5']);
    assert(text::dec(252) =~= seq!['2', '5', '2']);
    assert(ip::ip_text(a) =~= "255.255.255.252"@);
}

/// Digits without a leading zero are the decimal form of their value.
proof fn lemma_dec_of_value(s: Seq<char>)
    requires
        text::all_digits(s),
        s.len() > 0,
        s.len() == 1 || s[0] != '0',
    ensures
        text::dec(text::value(s)) == s,
        s[0] != '0' ==> text::value(s) > 0,
    decreases s.len(),
{
    let d = s.drop_last();
    assert(text::is_digit(s[s.len() - 1]));
    let last = (s.last() as nat - 48) as nat;
    assert(text::digit_char(last) == s.last());
    if s.len() == 1 {
        assert(d =~= Seq::<char>::empty());
        reveal_with_fuel(text::value, 2);
        assert(text::value(s) == last);
        assert(text::dec(last) =~= s);
    } else {
        assert(text::all_digits(d)) by {
            assert forall|i: int| 0 <= i < d.len() implies text::is_digit(#[trigger] d[i]) by {
                assert(d[i] == s[i]);
            }
        }
        assert(d[0] == s[0]);
        lemma_dec_of_value(d);
        let v = text::value(d);
        assert(text::value(s) == 10 * v + last);
        assert((10 * v + last) / 10 == v && (10 * v + last) % 10 == last);
        assert(d.push(s.last()) =~= s);
    }
}

proof fn lemma_quads(w: nat, x: nat, y: nat, z: nat, a: u32)
    requires
        w <= 255,
        x <= 255,
        y <= 255,
        z <= 255,
        a == w * 0x100_0000 + x * 0x1_0000 + y * 0x100 + z,
    ensures
        a / 0x100_0000 == w,
        a / 0x1_0000 % 0x100 == x,
        a / 0x100 % 0x100 == y,
        a % 0x100 == z,
{
    let b = a / 0x100;
    assert(b == w * 0x1_0000 + x * 0x100 + y);
    let c = b / 0x100;
    assert(c == w * 0x100 + x);
    assert(a / 0x1_0000 == c);
    assert(a / 0x100_0000 == c / 0x100);
}

proof fn lemma_dotted(w: Seq<char>, x: Seq<char>, y: Seq<char>, z: Seq<char>)
    ensures
        text_laws::strung(seq![w, x, y, z], '.') == w + "."@ + x + "."@ + y + "."@ + z,
{
    reveal_strlit(".");
    let p1 = seq![w];
    let p2 = p1.push(x);
    let p3 = p2.push(y);
    let p4 = p3.push(z);
    text_laws::lemma_strung_push(p1, x, '.');
    text_laws::lemma_strung_push(p2, y, '.');
    text_laws::lemma_strung_push(p3, z, '.');
    assert(p4 =~= seq![w, x, y, z]);
    assert(text_laws::strung(p4, '.') =~= w + "."@ + x + "."@ + y + "."@ + z);
}

/// An address is written in one way: what is read as an address is its dotted form.
pub proof fn law_addresses_have_one_form(s: Seq<char>, a: u32)
    requires
        ip::ipv4(s) == Some(a),
    ensures
        s == ip::ip_text(a),
{
    let p = text::split_char(s, '.');
    text_laws::law_string_undoes_split(s, '.');
    lemma_dec_of_value(p[0]);
    lemma_dec_of_value(p[1]);
    lemma_dec_of_value(p[2]);
    lemma_dec_of_value(p[3]);
    let w = text::value(p[0]);
    let x = text::value(p[1]);
    let y = text::value(p[2]);
    let z = text::value(p[3]);
    lemma_quads(w, x, y, z, a);
    lemma_dotted(p[0], p[1], p[2], p[3]);
    assert(seq![p[0], p[1], p[2], p[3]] =~= p);
}

/// A line of the kernel's listing names its device: what stands behind the number, up
/// to the next colon.
pub proof fn law_listed_device_is_named(number: Seq<char>, name: Seq<char>, rest: Seq<char>)
    requires
        text_laws::free_of(number, ':'),
        text_laws::free_of(name, ':'),
        text_laws::solid(name),
    ensures
        tap::listed_name(number.push(':').push(' ') + name.push(':') + rest) == Some(name),
{
    let line = number.push(':').push(' ') + name.push(':') + rest;
    let spaced = seq![' '] + name;
    let tail = spaced.push(':') + rest;
    assert(line =~= number.push(':') + tail);
    text_laws::law_halves(number, tail, ':');
    assert(text_laws::free_of(spaced, ':')) by {
        assert forall|i: int| 0 <= i < spaced.len() implies #[trigger] spaced[i] != ':' by {
            if i > 0 {
                assert(spaced[i] == name[i - 1]);
            }
        }
    }
    text_laws::law_halves(spaced, rest, ':');
    lemma_trim_space(name);
}

proof fn lemma_trim_space(name: Seq<char>)
    requires
        text_laws::solid(name),
    ensures
        text::trim(seq![' '] + name) == name,
{
    let s = seq![' '] + name;
    assert(s.skip(1) =~= name);
    if name.len() > 0 {
        assert(!text::is_white(name[0]));
        assert(!text::is_white(name[name.len() - 1]));
    }
    assert(text::trim_start(s) == text::trim_start(name));
    assert(text::trim_start(name) == name);
    assert(text::trim_end(name) == name);
}

/// The devices of an installation are picked from a listing: all that a line names
/// and that start with its prefix, and nothing else.
pub proof fn law_prefix_picks_devices(lines: Seq<Seq<char>>, prefix: Seq<char>, x: Seq<char>)
    ensures
        tap::listed_names(lines, prefix).contains(x) <==> prefix.is_prefix_of(x) && exists|i: int|
            0 <= i < lines.len() && tap::listed_name(#[trigger] lines[i]) == Some(x),
    decreases lines.len(),
{
    if lines.len() > 0 {
        let d = lines.drop_last();
        let n = d.len() as int;
        let b = tap::listed_names(d, prefix);
        let w = tap::listed_names(lines, prefix);
        law_prefix_picks_devices(d, prefix, x);
        if w.contains(x) {
            let i = choose|i: int| 0 <= i < w.len() && w[i] == x;
            if i < b.len() {
                assert(b[i] == x);
                let k = choose|k: int|
                    0 <= k < d.len() && tap::listed_name(#[trigger] d[k]) == Some(x);
                assert(lines[k] == d[k]);
            } else {
                assert(tap::listed_name(lines[n]) == Some(x));
            }
        }
        if prefix.is_prefix_of(x) && exists|i: int|
            0 <= i < lines.len() && tap::listed_name(#[trigger] lines[i]) == Some(x) {
            let k = choose|i: int|
                0 <= i < lines.len() && tap::listed_name(#[trigger] lines[i]) == Some(x);
            if k < n {
                assert(d[k] == lines[k]);
                let i = choose|i: int| 0 <= i < b.len() && b[i] == x;
                assert(w[i] == x);
            } else {
                assert(w[w.len() - 1] == x);
            }
        }
    } else {
        assert(!tap::listed_names(lines, prefix).contains(x));
    }
}

proof fn lemma_hex_head(n: nat, width: nat, k: nat)
    requires
        k <= width,
    ensures
        text::hex_fixed(n, width).len() == width,
        text::hex_fixed(n, width).take(k as int) == text::hex_fixed(
            n / vstd::arithmetic::power::pow(16, (width - k) as nat) as nat,
            k,
        ),
    decreases width,
{
    broadcast use vstd::arithmetic::power::lemma_pow_positive;

    let e = (width - k) as nat;
    let s = text::hex_fixed(n, width);
    if width > 0 {
        lemma_hex_head(n / 16, (width - 1) as nat, if k < width {
            k
        } else {
            (width - 1) as nat
        });
    }
    if k == width {
        vstd::arithmetic::power::lemma_pow0(16);
        assert(s.take(k as int) =~= s);
        assert(n / 1nat == n);
    } else {
        let p = vstd::arithmetic::power::pow(16, (e - 1) as nat);
        vstd::arithmetic::power::lemma_pow_adds(16, 1, (e - 1) as nat);
        vstd::arithmetic::power::lemma_pow1(16);
        assert(p > 0);
        vstd::arithmetic::div_mod::lemma_div_denominator(n as int, 16, p);
        assert(vstd::arithmetic::power::pow(16, e) == 16 * p);
        assert((n / 16) / (p as nat) == n / ((16 * p) as nat));
        assert(s.take(k as int) =~= text::hex_fixed(n / 16, (width - 1) as nat).take(k as int));
    }
}

/// The device of a VM is named by the top of its id: the prefix of the installation
/// and seven hexadecimal digits, which are all that of the id but its last twenty-five.
pub proof fn law_device_is_named_by_the_id(prefix: Seq<char>, vm_id: u128)
    ensures
        tap::device_text(prefix, vm_id) == prefix + text::hex_fixed(
            vm_id as nat / vstd::arithmetic::power::pow(16, 25) as nat,
            7,
        ),
{
    lemma_hex_head(vm_id as nat, 32, 7);
}

/// Devices of one installation never start with the prefix of another one of which the
/// namespace is as long.
pub proof fn law_device_prefixes_differ(a: Seq<char>, b: Seq<char>, vm_id: u128)
    requires
        a != b,
        a.len() == b.len(),
    ensures
        !tap::prefix_text(Some(a)).is_prefix_of(tap::device_text(tap::prefix_text(Some(b)), vm_id)),
{
    reveal_strlit("em");
    let p = tap::prefix_text(Some(a));
    let d = tap::device_text(tap::prefix_text(Some(b)), vm_id);
    let n = a.len() as int;
    if p.is_prefix_of(d) {
        assert(p.subrange(2, 2 + n) =~= a);
        assert(d.subrange(2, 2 + n) =~= b);
        assert(d.subrange(0, p.len() as int).subrange(2, 2 + n) =~= d.subrange(2, 2 + n));
    }
}

/// An entry of an allow list that is an address stands for that address alone: what it
/// becomes is read as a subnet of one address, and that one.
pub proof fn law_single_address_is_itself(t: Seq<char>, a: u32)
    requires
        ip::ipv4(t) == Some(a),
    ensures
        crate::network::egress::literal_text(t) matches Some(d) && ip::cidr(d) == Ok::<
            (u32, u8),
            Seq<char>,
        >((a, 32u8)),
{
    law_addresses_have_one_form(t, a);
    vstd::arithmetic::power2::lemma2_to64();
    ip_laws::law_cidr_round_trip(a, 32);
    reveal_strlit("/32");
    reveal_strlit("/");
    reveal_with_fuel(text::dec, 3);
    assert(text::dec(32) =~= seq!['3', '2']);
    assert(t + "/32"@ =~= ip::ip_text(a) + "/"@ + text::dec(32));
    assert forall|k: int| 0 <= k < t.len() implies t[k] != '/' by {
        ip_laws::lemma_ip_text_chars(a, k);
    }
}

/// What an entry of an allow list stands for: nothing where it is blank, itself where
/// it is a subnet, and every address that it resolves to, and no other, where it is a
/// name.
pub proof fn law_entries_stand_for(entry: Seq<char>, ips: Seq<Seq<char>>, k: int)
    ensures
        ({
            let t = text::trim(entry);
            let d = egress::entry_dests(entry, ips);
            &&& t.len() == 0 ==> d.len() == 0
            &&& t.len() > 0 && t.contains('/') ==> d == seq![t]
            &&& t.len() > 0 && !t.contains('/') && ip::ipv4(t) is Some ==> d == seq![t + "/32"@]
            &&& t.len() > 0 && !t.contains('/') && ip::ipv4(t) is None ==> d.len() == ips.len() && (0
                <= k < ips.len() ==> d[k] == ips[k] + "/32"@)
        }),
{
}

/// Destinations that were mentioned before keep their places.
pub proof fn law_first_mention_comes_first(seen: Seq<Seq<char>>, more: Seq<Seq<char>>)
    ensures
        seen.is_prefix_of(egress::merged(seen, more)),
    decreases more.len(),
{
    let w = egress::merged(seen, more);
    if more.len() > 0 {
        let b = egress::merged(seen, more.drop_last());
        law_first_mention_comes_first(seen, more.drop_last());
        assert(seen =~= b.take(seen.len() as int));
        assert(w.take(seen.len() as int) =~= b.take(seen.len() as int));
    } else {
        assert(w.take(seen.len() as int) =~= seen);
    }
}

/// An allocation that is not refused gives the VM the two addresses of the block that
/// it records for it, and a mask that leaves room for these two; the row is that of
/// the VM in that subnet.
pub proof fn law_allocation_gives_a_link(
    before: Seq<Row>,
    after: Seq<Row>,
    subnet: Seq<char>,
    vm_name: Seq<char>,
    exclude: Set<u32>,
    r: Result<IpAllocation, Error>,
)
    requires
        ip::allocated(before, after, subnet, vm_name, exclude, r),
        r is Ok,
    ensures
        ip::cidr(subnet) is Ok,
        ({
            let (base, prefix) = ip::cidr(subnet)->Ok_0;
            let a = r->Ok_0;
            &&& a.host_ip@ == ip::ip_text((base + 4 * a.block_index + 1) as u32)
            &&& a.guest_ip@ == ip::ip_text((base + 4 * a.block_index + 2) as u32)
            &&& ip::ipv4(a.netmask@) == Some(0xffff_fffcu32)
            &&& 4 * a.block_index + 4 <= ip::cidr_size(prefix)
            &&& after == before.push(
                Row { block_index: a.block_index, subnet, vm_name, single_address: 0 },
            )
        }),
{
    law_link_mask();
    let prefix = ip::cidr(subnet)->Ok_0.1;
    vstd::arithmetic::power2::lemma2_to64();
    vstd::arithmetic::power2::lemma_pow2_adds((30 - prefix) as nat, 2);
}

/// A VM that has no address yet gets one wherever a block of its subnet is free: no
/// other VM holds it, it is not excluded, and it lies in the subnet.
pub proof fn law_free_block_is_enough(
    before: Seq<Row>,
    after: Seq<Row>,
    subnet: Seq<char>,
    vm_name: Seq<char>,
    exclude: Set<u32>,
    r: Result<IpAllocation, Error>,
    free: u32,
)
    requires
        ip::allocated(before, after, subnet, vm_name, exclude, r),
        ip::cidr(subnet) matches Ok((_, prefix)) && prefix <= 30 && 4 * free + 4 <= ip::cidr_size(
            prefix,
        ),
        ip::singleton(before, subnet, 0),
        !ip::has_vm(before, vm_name),
        forall|k: int| 0 <= k < before.len() ==> (#[trigger] before[k]).block_index != free,
        !exclude.contains(free),
    ensures
        r is Ok,
{
    let (base, prefix) = ip::cidr(subnet)->Ok_0;
    vstd::arithmetic::power2::lemma2_to64();
    vstd::arithmetic::power2::lemma_pow2_adds((30 - prefix) as nat, 2);
    ip::lemma_used_slots(before, subnet, free);
    if before.len() > 0 {
        assert(before[0].subnet == subnet);
    }
    assert(ip::usable(ip::used_slots(before, subnet), exclude, Seq::empty(), base, free));
}

/// The same of single addresses: a VM gets the address of the slot that is recorded
/// for it, which is none of the reserved ones.
pub proof fn law_single_allocation(
    before: Seq<Row>,
    after: Seq<Row>,
    subnet: Seq<char>,
    vm_name: Seq<char>,
    host_ip: Seq<char>,
    netmask: Seq<char>,
    reserved: Seq<u32>,
    exclude: Set<u32>,
    r: Result<IpAllocation, Error>,
    free: u32,
)
    requires
        ip::allocated_single(
            before,
            after,
            subnet,
            vm_name,
            host_ip,
            netmask,
            reserved,
            exclude,
            r,
        ),
        ip::cidr(subnet) is Ok,
    ensures
        ({
            let (base, prefix) = ip::cidr(subnet)->Ok_0;
            &&& r matches Ok(a) ==> a.host_ip@ == host_ip && a.netmask@ == netmask && a.guest_ip@
                == ip::ip_text((base + a.block_index) as u32) && a.block_index < ip::cidr_size(
                prefix,
            ) && !reserved.contains((base + a.block_index) as u32) && !exclude.contains(
                a.block_index,
            ) && after == before.push(
                Row { block_index: a.block_index, subnet, vm_name, single_address: 1 },
            )
            &&& free < ip::cidr_size(prefix) && ip::singleton(before, subnet, 1) && !ip::has_vm(
                before,
                vm_name,
            ) && (forall|k: int|
                0 <= k < before.len() ==> (#[trigger] before[k]).block_index != free)
                && !exclude.contains(free) && !reserved.contains((base + free) as u32) ==> r is Ok
        }),
{
    let (base, prefix) = ip::cidr(subnet)->Ok_0;
    ip::lemma_used_slots(before, subnet, free);
    if free < ip::cidr_size(prefix) && ip::singleton(before, subnet, 1) && !ip::has_vm(
        before,
        vm_name,
    ) && (forall|k: int| 0 <= k < before.len() ==> (#[trigger] before[k]).block_index != free)
        && !exclude.contains(free) && !reserved.contains((base + free) as u32) {
        if before.len() > 0 {
            assert(before[0].subnet == subnet);
        }
        assert(ip::usable(ip::used_slots(before, subnet), exclude, reserved, base, free));
    }
}

/// A subnet is an address, a slash and a prefix of at most 32 bits; nothing behind
/// the prefix may be set.
pub proof fn law_subnets_are_checked(a: u32, n: nat, s: Seq<char>)
    requires
        n <= 255,
    ensures
        n > 32 ==> ip::cidr(ip::ip_text(a).push('/') + text::dec(n)) is Err,
        n <= 32 && a as nat % ip::cidr_size(n as u8) != 0 ==> ip::cidr(
            ip::ip_text(a).push('/') + text::dec(n),
        ) is Err,
        n <= 32 && a as nat % ip::cidr_size(n as u8) == 0 ==> ip::cidr(
            ip::ip_text(a).push('/') + text::dec(n),
        ) == Ok::<(u32, u8), Seq<char>>((a, n as u8)),
        text_laws::free_of(s, '/') ==> ip::cidr(s) is Err,
{
    let t = ip::ip_text(a);
    assert forall|i: int| 0 <= i < t.len() implies #[trigger] t[i] != '/' by {
        ip_laws::lemma_ip_text_chars(a, i);
    }
    text_laws::law_halves(t, text::dec(n), '/');
    ip_laws::law_ip_text_round_trip(a);
    text::lemma_parse_of_dec(n, 255);
    if text_laws::free_of(s, '/') {
        text_laws::law_halves(s, Seq::empty(), '/');
    }
}

/// A list of allocations goes by subnet, and in a subnet by slot.
pub proof fn law_list_goes_by_subnet_and_slot(v: Seq<ip::Listed>, i: int, j: int)
    requires
        ip::in_order(v),
        0 <= i < j < v.len(),
    ensures
        v[i].subnet == v[j].subnet ==> v[i].block_index <= v[j].block_index,
        v[i].subnet != v[j].subnet ==> text::str_less(v[i].subnet, v[j].subnet),
{
    assert(!ip::listed_before(v[j], v[i]));
    text::lemma_str_less_total(v[i].subnet, v[j].subnet);
}

/// A report on a slot names each VM that has a row there, and none that has not.
pub proof fn law_slot_names(t: Seq<Row>, subnet: Seq<char>, block_index: u32, x: Seq<char>)
    ensures
        ip::slot_names(t, subnet, block_index).contains(x) <==> exists|k: int|
            0 <= k < t.len() && (#[trigger] t[k]).subnet == subnet && t[k].block_index
                == block_index && t[k].vm_name == x,
    decreases t.len(),
{
    let a = ip::slot_names(t, subnet, block_index);
    if t.len() > 0 {
        let d = t.drop_last();
        let b = ip::slot_names(d, subnet, block_index);
        law_slot_names(d, subnet, block_index, x);
        if a.contains(x) {
            let i = choose|i: int| 0 <= i < a.len() && a[i] == x;
            if i < b.len() {
                assert(b[i] == x);
                assert(b.contains(x));
                let k = choose|k: int|
                    0 <= k < d.len() && (#[trigger] d[k]).subnet == subnet && d[k].block_index
                        == block_index && d[k].vm_name == x;
                assert(t[k] == d[k]);
            } else {
                assert(t[t.len() - 1].vm_name == x);
            }
        }
        if exists|k: int|
            0 <= k < t.len() && (#[trigger] t[k]).subnet == subnet && t[k].block_index
                == block_index && t[k].vm_name == x {
            let k = choose|k: int|
                0 <= k < t.len() && (#[trigger] t[k]).subnet == subnet && t[k].block_index
                    == block_index && t[k].vm_name == x;
            if k < d.len() {
                assert(d[k] == t[k]);
                let i = choose|i: int| 0 <= i < b.len() && b[i] == x;
                assert(a[i] == x);
            } else {
                assert(a[a.len() - 1] == x);
            }
        }
    }
}

/// The rules of an installation with a name are marked with it, those of two such
/// installations differently, and those of one without a name not at all.
pub proof fn law_rules_are_marked(a: Seq<char>, b: Seq<char>)
    ensures
        a.is_suffix_of(masquerade::comment_text(Some(a))),
        masquerade::comment_text(Some(a)) == masquerade::comment_text(Some(b)) ==> a == b,
        masquerade::comment_text(Some(a)) != masquerade::comment_text(None),
        masquerade::comment_text(None).len() == 0,
{
    reveal_strlit("ember:");
    let x = masquerade::comment_text(Some(a));
    let y = masquerade::comment_text(Some(b));
    assert(x.skip(6) =~= a);
    assert(y.skip(6) =~= b);
    assert(x.len() > 0);
}

} // verus!
