use vstd::prelude::*;

verus! {

/// The topic of the collector's heartbeat: `neuron/{client_id}/heartbeat`.
pub fn heartbeat_topic(client_id: &str) -> (r: String)
    ensures
        r@ == "neuron/"@ + client_id@ + "/heartbeat"@,
{
    String::from_str("neuron/").concat(client_id).concat("/heartbeat")
}

/// Memory and disk figures of a heartbeat, in whole mebibytes.
#[derive(Debug, Clone, Copy, PartialEq, Eq, Structural)]
pub struct UsageMb {
    pub memory_used_mb: u64,
    pub memory_total_mb: u64,
    pub disk_used_mb: u64,
    pub disk_total_mb: u64,
}

/// Whole mebibytes in a byte count, rounded down.
pub open spec fn mebibytes(bytes: u64) -> u64 {
    (bytes / 1024 / 1024) as u64
}

/// The heartbeat's memory and disk figures from the byte counts the system
/// reports: the first disk's used space is its total less its available
/// space; with no disk both disk figures are 0.
pub fn usage_mb(used_memory: u64, total_memory: u64, first_disk: Option<(u64, u64)>) -> (r: UsageMb)
    requires
        first_disk matches Some((total, available)) ==> available <= total,
    ensures
        r.memory_used_mb == mebibytes(used_memory),
        r.memory_total_mb == mebibytes(total_memory),
        r.disk_used_mb == match first_disk {
            Some((total, available)) => mebibytes((total - available) as u64),
            None => 0,
        },
        r.disk_total_mb == match first_disk {
            Some((total, _)) => mebibytes(total),
            None => 0,
        },
{
    let (disk_used, disk_total): (u64, u64) = match first_disk {
        Some((total, available)) => (total - available, total),
        None => (0, 0),
    };
    UsageMb {
        memory_used_mb: used_memory / 1024 / 1024,
        memory_total_mb: total_memory / 1024 / 1024,
        disk_used_mb: disk_used / 1024 / 1024,
        disk_total_mb: disk_total / 1024 / 1024,
    }
}

/// A figure in mebibytes is the byte count divided by 2^20, rounded down:
/// that many whole mebibytes fit in the count and one more does not; a
/// disk's used figure never exceeds its total.
pub proof fn law_whole_mebibytes(bytes: u64, total: u64, available: u64)
    requires
        available <= total,
    ensures
        mebibytes(bytes) * 0x10_0000 <= bytes < (mebibytes(bytes) + 1) * 0x10_0000,
        mebibytes((total - available) as u64) <= mebibytes(total),
{
    assert(bytes / 1024 / 1024 == bytes / 0x10_0000) by {
        vstd::arithmetic::div_mod::lemma_div_denominator(bytes as int, 1024, 1024);
    }
    assert(((total - available) as u64) / 1024 / 1024 == ((total - available) as u64) / 0x10_0000) by {
        vstd::arithmetic::div_mod::lemma_div_denominator((total - available) as int, 1024, 1024);
    }
    assert(total / 1024 / 1024 == total / 0x10_0000) by {
        vstd::arithmetic::div_mod::lemma_div_denominator(total as int, 1024, 1024);
    }
    vstd::arithmetic::div_mod::lemma_div_is_ordered((total - available) as int, total as int, 0x10_0000);
}

} // verus!
