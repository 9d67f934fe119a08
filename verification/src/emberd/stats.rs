//! How the machine is doing, from what the kernel says.
use crate::emberd::request::VmStats;
use crate::text;
use vstd::prelude::*;

verus! {

/// Over how many milliseconds the load of the processor is measured.
pub const CPU_SAMPLE_MS: u64 = 100;

/// The numbers among the words of a text; other words are skipped.
pub open spec fn numbers(words: Seq<Seq<char>>) -> Seq<u64>
    decreases words.len(),
{
    if words.len() == 0 {
        Seq::empty()
    } else {
        match text::parse_uint(words.last(), u64::MAX as nat) {
            Ok(n) => numbers(words.drop_last()).push(n as u64),
            Err(_) => numbers(words.drop_last()),
        }
    }
}

fn read_numbers(words: &Vec<String>, start: usize) -> (r: Vec<u64>)
    requires
        start <= words.len(),
    ensures
        r@ == numbers(text::views(words@).skip(start as int)),
{
    let ghost v = text::views(words@).skip(start as int);
    let mut out: Vec<u64> = Vec::new();
    let mut i: usize = start;
    assert(v.take(0) =~= Seq::<Seq<char>>::empty());
    while i < words.len()
        invariant
            start <= i <= words.len(),
            v == text::views(words@).skip(start as int),
            out@ == numbers(v.take(i - start)),
        decreases words.len() - i,
    {
        proof {
            assert(v.take(i + 1 - start).drop_last() =~= v.take(i - start));
            assert(v.take(i + 1 - start).last() == words@[i as int]@);
        }
        match text::parse_uint_str(words[i].as_str(), u64::MAX) {
            Ok(n) => out.push(n),
            Err(_) => {},
        }
        i += 1;
    }
    assert(v.take(v.len() as int) =~= v);
    out
}

// ------------------------------------------------------------------ network

/// The smaller of a sum and the largest number.
pub open spec fn saturated(a: u64, b: u64) -> u64 {
    if a + b > u64::MAX {
        u64::MAX
    } else {
        (a + b) as u64
    }
}

/// What a line adds to the bytes received and sent: the first and the ninth number
/// after the name of an interface that is not the loopback one.
pub open spec fn traffic(line: Seq<char>) -> (u64, u64) {
    match text::halves(line, ':') {
        None => (0, 0),
        Some((iface, rest)) => {
            let n = numbers(text::words(rest));
            if text::trim(iface) == "lo"@ {
                (0, 0)
            } else {
                (
                    if n.len() > 0 {
                        n[0]
                    } else {
                        0
                    },
                    if n.len() > 8 {
                        n[8]
                    } else {
                        0
                    },
                )
            }
        },
    }
}

/// The bytes received and sent through the interfaces of some lines.
pub open spec fn total_traffic(lines: Seq<Seq<char>>) -> (u64, u64)
    decreases lines.len(),
{
    if lines.len() == 0 {
        (0, 0)
    } else {
        let (rx, tx) = total_traffic(lines.drop_last());
        let (r, t) = traffic(lines.last());
        (saturated(rx, r), saturated(tx, t))
    }
}

/// The lines of a text after the first two.
pub open spec fn without_headers(content: Seq<char>) -> Seq<Seq<char>> {
    let v = text::lines(content);
    if v.len() <= 2 {
        Seq::empty()
    } else {
        v.skip(2)
    }
}

fn line_traffic(line: &str) -> (r: (u64, u64))
    ensures
        r == traffic(line@),
{
    match text::split_once(line, ':') {
        None => (0, 0),
        Some((iface, rest)) => {
            let w = text::split_words(rest.as_str());
            let n = read_numbers(&w, 0);
            assert(text::views(w@).skip(0) =~= text::views(w@));
            if text::same(text::trimmed(iface.as_str()).as_str(), "lo") {
                return (0, 0);
            }
            let rx: u64 = if n.len() > 0 {
                n[0]
            } else {
                0
            };
            let tx: u64 = if n.len() > 8 {
                n[8]
            } else {
                0
            };
            (rx, tx)
        },
    }
}

/// The bytes received and sent through all interfaces but the loopback one.
pub fn parse_net_dev(content: &str) -> (r: (u64, u64))
    ensures
        r == total_traffic(without_headers(content@)),
{
    let lines = text::split_lines(content);
    let ghost v = without_headers(content@);
    assert(text::views(lines@).len() == lines.len());
    let mut rx: u64 = 0;
    let mut tx: u64 = 0;
    if lines.len() <= 2 {
        return (rx, tx);
    }
    let mut i: usize = 2;
    assert(v.take(0) =~= Seq::<Seq<char>>::empty());
    while i < lines.len()
        invariant
            2 <= i <= lines.len(),
            v == text::views(lines@).skip(2),
            (rx, tx) == total_traffic(v.take(i - 2)),
        decreases lines.len() - i,
    {
        proof {
            assert(v.take(i - 1).drop_last() =~= v.take(i - 2));
            assert(v.take(i - 1).last() == lines@[i as int]@);
        }
        let (r, t) = line_traffic(lines[i].as_str());
        rx = rx.saturating_add(r);
        tx = tx.saturating_add(t);
        i += 1;
    }
    assert(v.take(v.len() as int) =~= v);
    (rx, tx)
}

// ---------------------------------------------------------------------- cpu

/// Counters of the processor.
#[derive(Clone, Copy, Debug, PartialEq, Eq, Structural)]
pub struct CpuSample {
    pub total: u64,
    pub idle: u64,
}

/// The counters on the first line about all processors together.
pub open spec fn counters(lines: Seq<Seq<char>>) -> Option<Seq<u64>>
    decreases lines.len(),
{
    if lines.len() == 0 {
        None
    } else if "cpu "@.is_prefix_of(lines[0]) {
        let w = text::words(lines[0]);
        Some(
            if w.len() == 0 {
                Seq::empty()
            } else {
                numbers(w.skip(1))
            },
        )
    } else {
        counters(lines.skip(1))
    }
}

/// The counters on the first line about all processors together.
pub fn read_counters(content: &str) -> (r: Option<Vec<u64>>)
    ensures
        match r {
            Some(n) => counters(text::lines(content@)) == Some(n@),
            None => counters(text::lines(content@)) is None,
        },
{
    let lines = text::split_lines(content);
    let ghost v = text::views(lines@);
    let mut i: usize = 0;
    assert(v.skip(0) =~= v);
    while i < lines.len()
        invariant
            i <= lines.len(),
            v == text::views(lines@),
            v == text::lines(content@),
            counters(v.skip(i as int)) == counters(v),
        decreases lines.len() - i,
    {
        proof {
            assert(v.skip(i as int)[0] == lines@[i as int]@);
            assert(v.skip(i as int).skip(1) =~= v.skip(i + 1));
        }
        if text::starts_with(lines[i].as_str(), "cpu ") {
            let w = text::split_words(lines[i].as_str());
            assert(text::views(w@).len() == w.len());
            if w.len() == 0 {
                return Some(Vec::new());
            }
            return Some(read_numbers(&w, 1));
        }
        i += 1;
    }
    assert(v.skip(v.len() as int) =~= Seq::<Seq<char>>::empty());
    None
}

/// The sum of some numbers.
pub open spec fn sum(v: Seq<u64>) -> nat
    decreases v.len(),
{
    if v.len() == 0 {
        0
    } else {
        sum(v.drop_last()) + v.last() as nat
    }
}

proof fn lemma_sum_prefix(v: Seq<u64>, i: int)
    requires
        0 <= i <= v.len(),
    ensures
        sum(v.take(i)) <= sum(v),
    decreases v.len() - i,
{
    if i < v.len() {
        lemma_sum_prefix(v, i + 1);
        assert(v.take(i + 1).drop_last() =~= v.take(i));
    } else {
        assert(v.take(i) =~= v);
    }
}

/// The sum of some numbers, where it fits.
pub fn checked_sum(v: &Vec<u64>) -> (r: Option<u64>)
    ensures
        match r {
            Some(n) => n == sum(v@),
            None => sum(v@) > u64::MAX,
        },
{
    let mut n: u64 = 0;
    let mut i: usize = 0;
    assert(v@.take(0) =~= Seq::<u64>::empty());
    while i < v.len()
        invariant
            i <= v.len(),
            n == sum(v@.take(i as int)),
        decreases v.len() - i,
    {
        proof {
            assert(v@.take(i + 1).drop_last() =~= v@.take(i as int));
            lemma_sum_prefix(v@, i + 1);
        }
        match n.checked_add(v[i]) {
            Some(m) => {
                n = m;
            },
            None => return None,
        }
        i += 1;
    }
    assert(v@.take(v@.len() as int) =~= v@);
    Some(n)
}

/// What some counters say: the fourth and the fifth are idle time. There is nothing
/// to say of fewer than four.
pub open spec fn sample_of(n: Seq<u64>) -> Option<(nat, nat)> {
    if n.len() < 4 {
        None
    } else {
        Some(
            (
                sum(n),
                n[3] as nat + if n.len() > 4 {
                    n[4] as nat
                } else {
                    0
                },
            ),
        )
    }
}

/// What the counters of the processor say.
pub fn read_cpu_sample(content: &str) -> (r: Option<CpuSample>)
    requires
        counters(text::lines(content@)) matches Some(n) ==> sum(n) <= u64::MAX,
    ensures
        match counters(text::lines(content@)) {
            None => r is None,
            Some(n) => match sample_of(n) {
                None => r is None,
                Some((total, idle)) => r matches Some(s) && s.total == total && s.idle == idle,
            },
        },
{
    let n = match read_counters(content) {
        Some(n) => n,
        None => return None,
    };
    if n.len() < 4 {
        return None;
    }
    let total: u64 = match checked_sum(&n) {
        Some(t) => t,
        None => return None,
    };
    proof {
        lemma_two_of_sum(n@);
    }
    let more: u64 = if n.len() > 4 {
        n[4]
    } else {
        0
    };
    Some(CpuSample { total, idle: n[3] + more })
}

proof fn lemma_two_of_sum(n: Seq<u64>)
    requires
        n.len() >= 4,
    ensures
        n[3] + (if n.len() > 4 {
            n[4] as int
        } else {
            0
        }) <= sum(n),
{
    lemma_sum_prefix(n, 4);
    assert(n.take(4).last() == n[3]);
    if n.len() > 4 {
        lemma_sum_prefix(n, 5);
        assert(n.take(5).drop_last() =~= n.take(4));
        assert(n.take(5).last() == n[4]);
    }
}

/// How busy the processor was between two samples: busy ticks of all ticks; `None`
/// where no time passed.
pub fn cpu_load(before: CpuSample, after: CpuSample) -> (r: Option<(u64, u64)>)
    ensures
        match r {
            None => after.total <= before.total,
            Some((busy, total)) => after.total > before.total && total == after.total - before.total
                && busy == (if total >= idle_between(before, after) {
                total - idle_between(before, after)
            } else {
                0
            }) && busy <= total,
        },
{
    let total: u64 = after.total.saturating_sub(before.total);
    if total == 0 {
        return None;
    }
    let idle: u64 = after.idle.saturating_sub(before.idle);
    Some((total.saturating_sub(idle), total))
}

/// The idle ticks between two samples.
pub open spec fn idle_between(before: CpuSample, after: CpuSample) -> int {
    if after.idle >= before.idle {
        after.idle - before.idle
    } else {
        0
    }
}

// ------------------------------------------------------------------- memory

/// The number in the first word of a text.
pub open spec fn first_number(s: Seq<char>) -> Option<u64> {
    let w = text::words(s);
    if w.len() == 0 {
        None
    } else {
        match text::parse_uint(w[0], u64::MAX as nat) {
            Ok(n) => Some(n as u64),
            Err(_) => None,
        }
    }
}

fn read_first_number(s: &str) -> (r: Option<u64>)
    ensures
        r == first_number(s@),
{
    let w = text::split_words(s);
    assert(text::views(w@).len() == w.len());
    if w.len() == 0 {
        return None;
    }
    assert(text::views(w@)[0] == w@[0]@);
    match text::parse_uint_str(w[0].as_str(), u64::MAX) {
        Ok(n) => Some(n),
        Err(_) => None,
    }
}

/// All memory and available memory, as far as some lines say, given what earlier
/// ones said. Once both are known, the rest is not read.
pub open spec fn memory_in(
    lines: Seq<Seq<char>>,
    total: Option<u64>,
    available: Option<u64>,
) -> (Option<u64>, Option<u64>)
    decreases lines.len(),
{
    if lines.len() == 0 || (total is Some && available is Some) {
        (total, available)
    } else {
        match text::without_prefix(lines[0], "MemTotal:"@) {
            Some(rest) => memory_in(lines.skip(1), first_number(rest), available),
            None => match text::without_prefix(lines[0], "MemAvailable:"@) {
                Some(rest) => memory_in(lines.skip(1), total, first_number(rest)),
                None => memory_in(lines.skip(1), total, available),
            },
        }
    }
}

/// Used memory and all memory in MiB, from both in KiB.
pub open spec fn memory_mb(m: (Option<u64>, Option<u64>)) -> Option<(u64, u64)> {
    match m {
        (Some(total), Some(available)) => Some(
            (
                if total >= available {
                    ((total - available) / 1024) as u64
                } else {
                    0
                },
                total / 1024,
            ),
        ),
        _ => None,
    }
}

/// Used memory and all memory, in MiB.
pub fn read_memory_mb(content: &str) -> (r: Option<(u64, u64)>)
    ensures
        r == memory_mb(memory_in(text::lines(content@), None, None)),
        r matches Some((used, total)) ==> used <= total,
{
    let lines = text::split_lines(content);
    let ghost v = text::views(lines@);
    let mut total: Option<u64> = None;
    let mut available: Option<u64> = None;
    let mut i: usize = 0;
    assert(v.skip(0) =~= v);
    while i < lines.len() && !(total.is_some() && available.is_some())
        invariant
            i <= lines.len(),
            v == text::views(lines@),
            v == text::lines(content@),
            memory_in(v.skip(i as int), total, available) == memory_in(v, None, None),
        decreases lines.len() - i,
    {
        proof {
            assert(v.skip(i as int)[0] == lines@[i as int]@);
            assert(v.skip(i as int).skip(1) =~= v.skip(i + 1));
        }
        let line = lines[i].as_str();
        match text::strip_prefix(line, "MemTotal:") {
            Some(rest) => {
                total = read_first_number(rest.as_str());
            },
            None => {
                if let Some(rest) = text::strip_prefix(line, "MemAvailable:") {
                    available = read_first_number(rest.as_str());
                }
            },
        }
        i += 1;
    }
    assert(v.skip(i as int).len() == v.len() - i);
    match (total, available) {
        (Some(t), Some(a)) => Some((t.saturating_sub(a) / 1024, t / 1024)),
        _ => None,
    }
}

// --------------------------------------------------------------------- disk

/// Used bytes of a filesystem.
pub fn disk_used_bytes(blocks: u64, blocks_free: u64, block_size: u64) -> (r: u64)
    requires
        used_blocks(blocks, blocks_free) * block_size <= u64::MAX,
    ensures
        r == used_blocks(blocks, blocks_free) * block_size,
{
    let used: u64 = blocks.saturating_sub(blocks_free);
    used * block_size
}

/// Used blocks of a filesystem.
pub open spec fn used_blocks(blocks: u64, blocks_free: u64) -> nat {
    if blocks >= blocks_free {
        (blocks - blocks_free) as nat
    } else {
        0
    }
}

/// How the machine is doing. What could not be found out is zero.
pub fn vm_stats(
    cpu: Option<(u64, u64)>,
    memory: Option<(u64, u64)>,
    disk_used_bytes: Option<u64>,
    net: Option<(u64, u64)>,
) -> (r: VmStats)
    ensures
        r.cpu == cpu,
        (r.memory_used_mb, r.memory_total_mb) == (match memory {
            Some(m) => m,
            None => (0u64, 0u64),
        }),
        r.disk_used_bytes == (match disk_used_bytes {
            Some(d) => d,
            None => 0,
        }),
        (r.net_rx_bytes, r.net_tx_bytes) == (match net {
            Some(n) => n,
            None => (0u64, 0u64),
        }),
{
    let (memory_used_mb, memory_total_mb) = match memory {
        Some(m) => m,
        None => (0, 0),
    };
    let (net_rx_bytes, net_tx_bytes) = match net {
        Some(n) => n,
        None => (0, 0),
    };
    VmStats {
        cpu,
        memory_used_mb,
        memory_total_mb,
        disk_used_bytes: match disk_used_bytes {
            Some(d) => d,
            None => 0,
        },
        net_rx_bytes,
        net_tx_bytes,
    }
}

} // verus!
