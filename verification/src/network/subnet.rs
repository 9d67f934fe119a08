//! The subnet that an installation uses unless it is told otherwise.
use crate::text;
use vstd::prelude::*;

verus! {

/// The 32-bit FNV-1a hash of some bytes.
pub open spec fn fnv1a(bytes: Seq<u8>) -> u32
    decreases bytes.len(),
{
    if bytes.len() == 0 {
        0x811c_9dc5
    } else {
        ((fnv1a(bytes.drop_last()) ^ (bytes.last() as u32)) as nat * 0x0100_0193 % 0x1_0000_0000) as u32
    }
}

/// The 32-bit FNV-1a hash of some bytes.
pub fn fnv1a_32(bytes: &[u8]) -> (r: u32)
    ensures
        r == fnv1a(bytes@),
{
    let mut h: u32 = 0x811c_9dc5;
    let mut i: usize = 0;
    assert(bytes@.take(0) =~= Seq::<u8>::empty());
    while i < bytes.len()
        invariant
            i <= bytes.len(),
            h == fnv1a(bytes@.take(i as int)),
        decreases bytes.len() - i,
    {
        proof {
            assert(bytes@.take(i + 1).drop_last() =~= bytes@.take(i as int));
            assert(bytes@.take(i + 1).last() == bytes@[i as int]);
        }
        let x: u32 = h ^ (bytes[i] as u32);
        h = (x as u64 * 0x0100_0193 % 0x1_0000_0000) as u32;
        i += 1;
    }
    assert(bytes@.take(bytes@.len() as int) =~= bytes@);
    h
}

/// The subnet of an installation: `10.{slot}.0.0/16`, where the slot is the high
/// byte of a hash of its id.
pub open spec fn default_subnet(id: Seq<u8>) -> Seq<char> {
    "10."@ + text::dec((fnv1a(id) / 0x100_0000) as nat) + ".0.0/16"@
}

/// The default subnet of an installation. Two installations on one host rarely
/// get the same one, and one installation always gets the same.
pub fn derive_default_subnet(instance_id: &str) -> (r: String)
    ensures
        r@ == default_subnet(vstd::utf8::encode_utf8(instance_id@)),
{
    let hash: u32 = fnv1a_32(instance_id.as_bytes());
    let slot: u32 = hash / 0x100_0000;
    text::cat3("10.", text::dec_u64(slot as u64).as_str(), ".0.0/16")
}

/// The default subnet can be allocated from: it is a `/16` without host bits.
pub proof fn law_default_subnet_parses(id: Seq<u8>)
    ensures
        crate::network::ip::cidr(default_subnet(id)) == Ok::<(u32, u8), Seq<char>>(
            ((10 * 0x100_0000 + (fnv1a(id) / 0x100_0000) * 0x1_0000) as u32, 16u8),
        ),
{
    let slot = (fnv1a(id) / 0x100_0000) as nat;
    let a = (10 * 0x100_0000 + slot * 0x1_0000) as u32;
    assert(slot < 256);
    assert(a / 0x100_0000 == 10);
    assert(a / 0x1_0000 % 0x100 == slot);
    assert(a / 0x100 % 0x100 == 0);
    assert(a % 0x100 == 0);
    vstd::arithmetic::power2::lemma2_to64();
    assert(a as nat % 0x1_0000 == 0);
    crate::network::ip_laws::law_cidr_round_trip(a, 16);
    assert(default_subnet(id) =~= crate::network::ip::ip_text(a) + "/"@ + text::dec(16)) by {
        lemma_tail(text::dec(slot));
    }
}

proof fn lemma_tail(slot: Seq<char>)
    ensures
        "10."@ + slot + ".0.0/16"@ == text::dec(10) + "."@ + slot + "."@ + text::dec(0) + "."@
            + text::dec(0) + "/"@ + text::dec(16),
{
    reveal_strlit(".0.0/16");
    reveal_strlit("10.");
    reveal_strlit(".");
    reveal_strlit("/");
    reveal_with_fuel(text::dec, 2);
    assert(text::dec(10) =~= seq!['1', '0']);
    assert(text::dec(0) =~= seq!['0']);
    assert(text::dec(16) =~= seq!['1', '6']);
    assert("10."@ =~= text::dec(10) + "."@);
    assert(".0.0/16"@ =~= "."@ + text::dec(0) + "."@ + text::dec(0) + "/"@ + text::dec(16));
    assert("10."@ + slot + ".0.0/16"@ =~= text::dec(10) + "."@ + slot + "."@ + text::dec(0) + "."@
        + text::dec(0) + "/"@ + text::dec(16));
}

} // verus!
