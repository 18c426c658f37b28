use android_readout::error::ReadoutError;
use android_readout::memory::{read_meminfo, to_kibibytes, AndroidMemoryReadout, MEMINFO_PATH};
use android_readout::sysinfo::SysInfo;

const MEMINFO: &str = "MemTotal:        7817072 kB\n\
MemFree:          210520 kB\n\
Buffers:            6168 kB\n\
SwapCached:         5912 kB\n\
Cached:          2386652 kB\n\
Active:          2275336 kB\n\
SReclaimable:     123456 kB\n\
SUnreclaim:       234567 kB\n";

fn stats(total: u64, free: u64, buffers: u64, unit: u32) -> SysInfo {
    SysInfo {
        uptime: 1,
        loads: [0, 0, 0],
        totalram: total,
        freeram: free,
        bufferram: buffers,
        mem_unit: unit,
    }
}

fn parse_failure(raw: &str) -> ReadoutError {
    ReadoutError::ParseFailure {
        raw: raw.to_string(),
        source: MEMINFO_PATH.to_string(),
        target: "u64".to_string(),
    }
}

#[test]
fn kibibytes_scale_by_the_memory_unit() {
    assert_eq!(to_kibibytes(4096, 1024), Ok(4096));
    assert_eq!(to_kibibytes(1000, 4096), Ok(4000));
    assert_eq!(to_kibibytes(8_000_000_000, 1), Ok(7_812_500));
    assert_eq!(to_kibibytes(1023, 1), Ok(0));
    assert_eq!(to_kibibytes(1024, 1), Ok(1));
    assert_eq!(to_kibibytes(2047, 1), Ok(1));
    assert_eq!(to_kibibytes(0, 4096), Ok(0));
    assert_eq!(to_kibibytes(5, 0), Ok(0));
}

#[test]
fn kibibytes_past_the_product_of_64_bits() {
    assert_eq!(to_kibibytes(u64::MAX, 1024), Ok(u64::MAX));
    assert_eq!(to_kibibytes(u64::MAX, 512), Ok(u64::MAX / 2));
    assert_eq!(
        to_kibibytes(u64::MAX, 2048),
        Err(ReadoutError::Other("Memory size does not fit 64 bits".to_string()))
    );
    assert_eq!(
        to_kibibytes(u64::MAX, u32::MAX),
        Err(ReadoutError::Other("Memory size does not fit 64 bits".to_string()))
    );
}

#[test]
fn total_free_and_buffers_read_their_fields() {
    let memory = AndroidMemoryReadout::new();
    let info = Some(stats(2_000_000, 500_000, 30_000, 4096));
    assert_eq!(memory.total(info), Ok(8_000_000));
    assert_eq!(memory.free(info), Ok(2_000_000));
    assert_eq!(memory.buffers(info), Ok(120_000));
}

#[test]
fn snapshot_facts_fail_without_a_snapshot() {
    let memory = AndroidMemoryReadout::new();
    assert_eq!(memory.total(None), Err(ReadoutError::SyscallFailure));
    assert_eq!(memory.free(None), Err(ReadoutError::SyscallFailure));
    assert_eq!(memory.buffers(None), Err(ReadoutError::SyscallFailure));
}

#[test]
fn cached_and_reclaimable_match_their_keys_exactly() {
    let memory = AndroidMemoryReadout::new();
    assert_eq!(memory.cached(Some(MEMINFO)), Ok(2_386_652));
    assert_eq!(memory.reclaimable(Some(MEMINFO)), Ok(123_456));
    assert_eq!(read_meminfo(Some(MEMINFO), "SwapCached"), Ok(5912));
    assert_eq!(read_meminfo(Some(MEMINFO), "MemTotal"), Ok(7_817_072));
    assert_eq!(read_meminfo(Some(MEMINFO), "Mem"), Ok(0));
    assert_eq!(read_meminfo(Some(MEMINFO), "cached"), Ok(0));
    assert_eq!(read_meminfo(Some(MEMINFO), "Cached:"), Ok(0));
}

#[test]
fn a_missing_key_is_zero() {
    let memory = AndroidMemoryReadout::new();
    assert_eq!(memory.cached(Some("MemTotal: 5 kB\nSwapCached: 7 kB\n")), Ok(0));
    assert_eq!(memory.reclaimable(Some("MemTotal: 5 kB\n")), Ok(0));
    assert_eq!(memory.cached(Some("")), Ok(0));
    assert_eq!(memory.cached(Some("Cached 12 kB\n")), Ok(0));
    assert_eq!(memory.cached(Some(" Cached: 12 kB\n")), Ok(0));
    assert_eq!(memory.cached(None), Ok(0));
    assert_eq!(memory.reclaimable(None), Ok(0));
}

#[test]
fn the_first_line_with_the_key_decides() {
    let memory = AndroidMemoryReadout::new();
    assert_eq!(memory.cached(Some("Cached: 1 kB\nCached: 2 kB\n")), Ok(1));
    assert_eq!(memory.cached(Some("Cached:7\n")), Ok(7));
    assert_eq!(memory.cached(Some("Cached:\t+8 kB\r\n")), Ok(8));
    assert_eq!(memory.cached(Some("Cached: 18446744073709551615 kB")), Ok(u64::MAX));
}

#[test]
fn a_value_that_is_no_amount_is_a_parse_failure() {
    let memory = AndroidMemoryReadout::new();
    assert_eq!(memory.cached(Some("Cached: lots kB\n")), Err(parse_failure("lots kB")));
    assert_eq!(memory.cached(Some("Cached:\n")), Err(parse_failure("")));
    assert_eq!(memory.cached(Some("Cached:   \n")), Err(parse_failure("")));
    assert_eq!(memory.cached(Some("Cached: -5 kB\n")), Err(parse_failure("-5 kB")));
    assert_eq!(memory.cached(Some("Cached: 12kB\n")), Err(parse_failure("12kB")));
    assert_eq!(
        memory.cached(Some("Cached: 18446744073709551616 kB\nCached: 1 kB\n")),
        Err(parse_failure("18446744073709551616 kB"))
    );
    assert_eq!(memory.reclaimable(Some("SReclaimable: x\n")), Err(parse_failure("x")));
}

#[test]
fn used_is_total_less_the_four_others() {
    let memory = AndroidMemoryReadout::new();
    let info = Some(stats(8_000_000, 1_000_000, 6_168, 1024));
    assert_eq!(
        memory.used(info, Some(MEMINFO)),
        Ok(8_000_000 - 1_000_000 - 2_386_652 - 123_456 - 6_168)
    );
    assert_eq!(memory.used(info, None), Ok(8_000_000 - 1_000_000 - 6_168));
    assert_eq!(memory.used(Some(stats(10, 2, 3, 1024)), Some("Cached: 1 kB\nSReclaimable: 4 kB\n")), Ok(0));
}

#[test]
fn used_matches_the_accessors() {
    let memory = AndroidMemoryReadout::new();
    for (total, free, buffers, unit) in [(900u64, 100u64, 50u64, 2048u32), (5000, 0, 0, 1024), (77, 7, 7, 4096)] {
        for table in ["", "Cached: 10 kB\n", "SReclaimable: 20 kB\nCached: 30 kB\n"] {
            let info = Some(stats(total, free, buffers, unit));
            let expected = memory.total(info).unwrap()
                - memory.free(info).unwrap()
                - memory.cached(Some(table)).unwrap()
                - memory.reclaimable(Some(table)).unwrap()
                - memory.buffers(info).unwrap();
            assert_eq!(memory.used(info, Some(table)), Ok(expected));
        }
    }
}

#[test]
fn used_below_zero_is_an_error() {
    let memory = AndroidMemoryReadout::new();
    let inconsistent = ReadoutError::Other("Memory counters are inconsistent".to_string());
    assert_eq!(memory.used(Some(stats(10, 11, 0, 1024)), None), Err(ReadoutError::Other("Memory counters are inconsistent".to_string())));
    assert_eq!(
        memory.used(Some(stats(10, 2, 3, 1024)), Some("Cached: 1 kB\nSReclaimable: 5 kB\n")),
        Err(ReadoutError::Other("Memory counters are inconsistent".to_string()))
    );
    assert_eq!(
        memory.used(Some(stats(0, 0, 0, 1024)), Some("Cached: 18446744073709551615 kB\n")),
        Err(inconsistent)
    );
}

#[test]
fn used_fails_with_the_first_failure() {
    let memory = AndroidMemoryReadout::new();
    assert_eq!(memory.used(None, Some("Cached: x\n")), Err(ReadoutError::SyscallFailure));
    assert_eq!(
        memory.used(Some(stats(u64::MAX, 0, 0, 4096)), Some("Cached: x\n")),
        Err(ReadoutError::Other("Memory size does not fit 64 bits".to_string()))
    );
    assert_eq!(
        memory.used(Some(stats(10, 0, 0, 1024)), Some("SReclaimable: y\nCached: x\n")),
        Err(parse_failure("x"))
    );
    assert_eq!(
        memory.used(Some(stats(10, 0, 0, 1024)), Some("SReclaimable: y\nCached: 1\n")),
        Err(parse_failure("y"))
    );
    assert_eq!(
        memory.used(Some(stats(10, 0, u64::MAX, 4096)), Some("Cached: x\n")),
        Err(parse_failure("x"))
    );
}
