//! Memory facts, in kibibytes.

use crate::error::{value_result, ErrorModel, ReadoutError};
use crate::number::{parse_bounded, parse_unsigned};
use crate::split::{lines, split_lines, split_words, words};
use crate::sysinfo::SysInfo;
use crate::text::{
    chars_of, opt_text, rows, run_end, run_len, same_chars, slice_of, trim, trimmed, CharClass,
};
use vstd::prelude::*;

verus! {

/// Where the kernel prints its detailed table of memory facts.
pub const MEMINFO_PATH: &'static str = "/proc/meminfo";

/// An amount of `raw` units of `unit` bytes each, in kibibytes, rounded
/// down.
pub open spec fn kibibytes(raw: u64, unit: u32) -> nat {
    (raw as nat * unit as nat) / 1024
}

/// The amount in kibibytes as a result: an error where it does not fit
/// 64 bits.
pub open spec fn kibibytes_result(raw: u64, unit: u32) -> Result<u64, ErrorModel> {
    if kibibytes(raw, unit) <= u64::MAX {
        Ok(kibibytes(raw, unit) as u64)
    } else {
        Err(ErrorModel::Other("Memory size does not fit 64 bits"@))
    }
}

/// What `total` returns for a snapshot, or for `None` where the call that
/// takes the snapshot failed.
pub open spec fn total_of(stats: Option<SysInfo>) -> Result<u64, ErrorModel> {
    match stats {
        Some(info) => kibibytes_result(info.totalram, info.mem_unit),
        None => Err(ErrorModel::SyscallFailure),
    }
}

/// What `free` returns.
pub open spec fn free_of(stats: Option<SysInfo>) -> Result<u64, ErrorModel> {
    match stats {
        Some(info) => kibibytes_result(info.freeram, info.mem_unit),
        None => Err(ErrorModel::SyscallFailure),
    }
}

/// What `buffers` returns.
pub open spec fn buffers_of(stats: Option<SysInfo>) -> Result<u64, ErrorModel> {
    match stats {
        Some(info) => kibibytes_result(info.bufferram, info.mem_unit),
        None => Err(ErrorModel::SyscallFailure),
    }
}

/// What follows the colon of `line`, if exactly `key` stands before its
/// first colon.
pub open spec fn keyed_text(line: Seq<char>, key: Seq<char>) -> Option<Seq<char>> {
    let k = run_len(line, CharClass::Except(':')) as int;
    if k < line.len() && line.take(k) == key {
        Some(line.skip(k + 1))
    } else {
        None
    }
}

/// What follows the colon of the first line whose key is `key`.
pub open spec fn first_keyed(table: Seq<Seq<char>>, key: Seq<char>) -> Option<Seq<char>>
    decreases table.len(),
{
    if table.len() == 0 {
        None
    } else {
        match first_keyed(table.drop_last(), key) {
            Some(text) => Some(text),
            None => keyed_text(table.last(), key),
        }
    }
}

/// The amount that a value text states: its first word, read as an
/// unsigned decimal number of at most 64 bits.
pub open spec fn amount(text: Seq<char>) -> Option<nat> {
    if words(text).len() == 0 {
        None
    } else {
        parse_bounded(words(text)[0], u64::MAX as nat)
    }
}

/// The amount that the memory table states under `key`: zero where the
/// table could not be read or has no such key, a parse failure where the
/// key is there and its value is no amount.
pub open spec fn meminfo_value(meminfo: Option<Seq<char>>, key: Seq<char>) -> Result<
    u64,
    ErrorModel,
> {
    let table = match meminfo {
        Some(text) => lines(text),
        None => Seq::empty(),
    };
    match first_keyed(table, key) {
        None => Ok(0),
        Some(text) => match amount(text) {
            Some(n) => Ok(n as u64),
            None => Err(
                ErrorModel::ParseFailure { raw: trim(text), source: MEMINFO_PATH@, target: "u64"@ },
            ),
        },
    }
}

/// What `cached` returns for the text of the memory table.
pub open spec fn cached_of(meminfo: Option<Seq<char>>) -> Result<u64, ErrorModel> {
    meminfo_value(meminfo, "Cached"@)
}

/// What `reclaimable` returns for the text of the memory table.
pub open spec fn reclaimable_of(meminfo: Option<Seq<char>>) -> Result<u64, ErrorModel> {
    meminfo_value(meminfo, "SReclaimable"@)
}

/// The memory in use, from the five facts it is derived from: the first
/// failure among them in the order given, else the total less the four
/// others, else an error where that difference is negative.
pub open spec fn used_from(
    total: Result<u64, ErrorModel>,
    free: Result<u64, ErrorModel>,
    cached: Result<u64, ErrorModel>,
    reclaimable: Result<u64, ErrorModel>,
    buffers: Result<u64, ErrorModel>,
) -> Result<u64, ErrorModel> {
    match (total, free, cached, reclaimable, buffers) {
        (Err(e), _, _, _, _) => Err(e),
        (_, Err(e), _, _, _) => Err(e),
        (_, _, Err(e), _, _) => Err(e),
        (_, _, _, Err(e), _) => Err(e),
        (_, _, _, _, Err(e)) => Err(e),
        (Ok(t), Ok(f), Ok(c), Ok(r), Ok(b)) => if t - f - c - r - b >= 0 {
            Ok((t - f - c - r - b) as u64)
        } else {
            Err(ErrorModel::Other("Memory counters are inconsistent"@))
        },
    }
}

/// What `used` returns.
pub open spec fn used_of(stats: Option<SysInfo>, meminfo: Option<Seq<char>>) -> Result<
    u64,
    ErrorModel,
> {
    used_from(
        total_of(stats),
        free_of(stats),
        cached_of(meminfo),
        reclaimable_of(meminfo),
        buffers_of(stats),
    )
}

/// The memory in use is the total less what is free, cached, reclaimable
/// and in buffers. It is reported exactly when each of the five facts is
/// there and the difference is not negative.
pub proof fn lemma_used_is_difference(
    total: Result<u64, ErrorModel>,
    free: Result<u64, ErrorModel>,
    cached: Result<u64, ErrorModel>,
    reclaimable: Result<u64, ErrorModel>,
    buffers: Result<u64, ErrorModel>,
)
    ensures
        used_from(total, free, cached, reclaimable, buffers) is Ok <==> {
            &&& total is Ok
            &&& free is Ok
            &&& cached is Ok
            &&& reclaimable is Ok
            &&& buffers is Ok
            &&& total->Ok_0 - free->Ok_0 - cached->Ok_0 - reclaimable->Ok_0 - buffers->Ok_0 >= 0
        },
        used_from(total, free, cached, reclaimable, buffers) is Ok ==> used_from(
            total,
            free,
            cached,
            reclaimable,
            buffers,
        )->Ok_0 == total->Ok_0 - free->Ok_0 - cached->Ok_0 - reclaimable->Ok_0 - buffers->Ok_0,
{
}

/// What was learnt from a prefix of the table holds of the whole table.
pub proof fn lemma_first_keyed_prefix(table: Seq<Seq<char>>, key: Seq<char>, k: int)
    requires
        0 <= k <= table.len(),
        first_keyed(table.take(k), key) is Some,
    ensures
        first_keyed(table, key) == first_keyed(table.take(k), key),
    decreases table.len(),
{
    if k == table.len() {
        assert(table.take(k) =~= table);
    } else {
        assert(table.drop_last().take(k) =~= table.take(k));
        lemma_first_keyed_prefix(table.drop_last(), key, k);
    }
}

/// Converts an amount of memory units into kibibytes.
pub fn to_kibibytes(raw: u64, unit: u32) -> (r: Result<u64, ReadoutError>)
    ensures
        value_result(r) == kibibytes_result(raw, unit),
{
    assert(raw as u128 * unit as u128 <= 0xFFFF_FFFF_FFFF_FFFF * 0xFFFF_FFFF) by (nonlinear_arith)
        requires
            raw <= 0xFFFF_FFFF_FFFF_FFFF,
            unit <= 0xFFFF_FFFF,
    ;
    let bytes: u128 = raw as u128 * unit as u128;
    let kib: u128 = bytes / 1024;
    if kib <= u64::MAX as u128 {
        Ok(kib as u64)
    } else {
        Err(ReadoutError::other("Memory size does not fit 64 bits"))
    }
}

/// Looks `key` up in the text of the memory table.
pub fn read_meminfo(meminfo: Option<&str>, key: &str) -> (r: Result<u64, ReadoutError>)
    ensures
        value_result(r) == meminfo_value(opt_text(meminfo), key@),
{
    let table: Vec<Vec<char>> = match meminfo {
        Some(text) => split_lines(&chars_of(text)),
        None => Vec::new(),
    };
    let wanted = chars_of(key);
    let ghost all = rows(table@);
    proof {
        if meminfo is None {
            assert(all =~= Seq::empty());
        }
    }
    let mut i: usize = 0;
    while i < table.len()
        invariant
            i <= table.len(),
            all == rows(table@),
            all == match opt_text(meminfo) {
                Some(text) => lines(text),
                None => Seq::empty(),
            },
            wanted@ == key@,
            first_keyed(all.take(i as int), key@) is None,
        decreases table.len() - i,
    {
        let line = &table[i];
        let n = line.len();
        let k = run_end(line, 0, n, CharClass::Except(':'));
        proof {
            assert(line@.subrange(0, n as int) =~= line@);
            assert(all.take(i + 1).drop_last() =~= all.take(i as int));
            assert(all.take(i + 1).last() == line@);
        }
        if k < n {
            let name = slice_of(line, 0, k);
            if same_chars(&name, &wanted) {
                let text = slice_of(line, k + 1, n);
                proof {
                    assert(text@ =~= line@.skip(k + 1));
                    lemma_first_keyed_prefix(all, key@, i + 1);
                }
                let parts = split_words(&text);
                if parts.len() > 0 {
                    proof {
                        assert(rows(parts@)[0] == parts@[0]@);
                    }
                    if let Some(n) = parse_unsigned(&parts[0], u64::MAX) {
                        return Ok(n);
                    }
                }
                return Err(ReadoutError::parse_failure(&trimmed(&text), MEMINFO_PATH, "u64"));
            }
        }
        i += 1;
    }
    proof {
        assert(all.take(table.len() as int) =~= all);
    }
    Ok(0)
}

/// Reads the memory facts.
pub struct AndroidMemoryReadout;

impl AndroidMemoryReadout {
    pub fn new() -> Self {
        AndroidMemoryReadout
    }

    /// Total memory, from a snapshot of the system statistics.
    pub fn total(&self, stats: Option<SysInfo>) -> (r: Result<u64, ReadoutError>)
        ensures
            value_result(r) == total_of(stats),
    {
        match stats {
            Some(info) => to_kibibytes(info.totalram, info.mem_unit),
            None => Err(ReadoutError::SyscallFailure),
        }
    }

    /// Free memory, from a snapshot of the system statistics.
    pub fn free(&self, stats: Option<SysInfo>) -> (r: Result<u64, ReadoutError>)
        ensures
            value_result(r) == free_of(stats),
    {
        match stats {
            Some(info) => to_kibibytes(info.freeram, info.mem_unit),
            None => Err(ReadoutError::SyscallFailure),
        }
    }

    /// Memory in buffers, from a snapshot of the system statistics.
    pub fn buffers(&self, stats: Option<SysInfo>) -> (r: Result<u64, ReadoutError>)
        ensures
            value_result(r) == buffers_of(stats),
    {
        match stats {
            Some(info) => to_kibibytes(info.bufferram, info.mem_unit),
            None => Err(ReadoutError::SyscallFailure),
        }
    }

    /// Cached memory, from the text of the memory table.
    pub fn cached(&self, meminfo: Option<&str>) -> (r: Result<u64, ReadoutError>)
        ensures
            value_result(r) == cached_of(opt_text(meminfo)),
    {
        read_meminfo(meminfo, "Cached")
    }

    /// Reclaimable memory, from the text of the memory table.
    pub fn reclaimable(&self, meminfo: Option<&str>) -> (r: Result<u64, ReadoutError>)
        ensures
            value_result(r) == reclaimable_of(opt_text(meminfo)),
    {
        read_meminfo(meminfo, "SReclaimable")
    }

    /// Memory in use: the total less what is free, cached, reclaimable and
    /// in buffers.
    pub fn used(&self, stats: Option<SysInfo>, meminfo: Option<&str>) -> (r: Result<
        u64,
        ReadoutError,
    >)
        ensures
            value_result(r) == used_of(stats, opt_text(meminfo)),
    {
        let total = match self.total(stats) {
            Ok(v) => v,
            Err(e) => { return Err(e); },
        };
        let free = match self.free(stats) {
            Ok(v) => v,
            Err(e) => { return Err(e); },
        };
        let cached = match self.cached(meminfo) {
            Ok(v) => v,
            Err(e) => { return Err(e); },
        };
        let reclaimable = match self.reclaimable(meminfo) {
            Ok(v) => v,
            Err(e) => { return Err(e); },
        };
        let buffers = match self.buffers(stats) {
            Ok(v) => v,
            Err(e) => { return Err(e); },
        };
        let rest: i128 = total as i128 - free as i128 - cached as i128 - reclaimable as i128
            - buffers as i128;
        if rest >= 0 {
            Ok(rest as u64)
        } else {
            Err(ReadoutError::other("Memory counters are inconsistent"))
        }
    }
}

} // verus!
