use android_readout::error::ReadoutError;
use android_readout::general::{
    load_percent, AndroidGeneralReadout, NetworkInterface, ShellFormat, ShellKind, ShellSource,
};
use android_readout::product::{PropertyStore, FAMILY_KEY, PRODUCT_KEY, VENDOR_KEY};
use android_readout::sysinfo::SysInfo;

fn not_found() -> ReadoutError {
    ReadoutError::Other("Failed to get processor model name".to_string())
}

fn store(vendor: &str, family: &str, product: &str) -> PropertyStore {
    let mut store = PropertyStore::new();
    store.set(VENDOR_KEY, vendor);
    store.set(FAMILY_KEY, family);
    store.set(PRODUCT_KEY, product);
    store
}

fn stats(load: u64, uptime: usize) -> SysInfo {
    SysInfo {
        uptime,
        loads: [load, 7, 9],
        totalram: 0,
        freeram: 0,
        bufferram: 0,
        mem_unit: 1,
    }
}

#[test]
fn cpu_model_name_of_a_model_name_line() {
    let general = AndroidGeneralReadout::new();
    assert_eq!(
        general.cpu_model_name(Some("model name : Foo Bar")),
        Ok("Foo Bar".to_string())
    );
    assert_eq!(
        general.cpu_model_name(Some("model name\t: Foo Bar\n")),
        Ok("Foo Bar".to_string())
    );
}

#[test]
fn cpu_model_name_stops_at_hardware() {
    let general = AndroidGeneralReadout::new();
    assert_eq!(
        general.cpu_model_name(Some("Hardware : Qualcomm\nmodel name : X\n")),
        Ok("Qualcomm".to_string())
    );
}

#[test]
fn cpu_model_name_prefers_hardware_over_what_came_before() {
    let general = AndroidGeneralReadout::new();
    let table = "Processor : ARMv7\nmodel name : X\nHardware : Qualcomm\nmodel name : Y\n";
    assert_eq!(general.cpu_model_name(Some(table)), Ok("Qualcomm".to_string()));
}

#[test]
fn cpu_model_name_takes_the_first_hardware_line() {
    let general = AndroidGeneralReadout::new();
    let table = "Hardware : First\nHardware : Second\n";
    assert_eq!(general.cpu_model_name(Some(table)), Ok("First".to_string()));
}

#[test]
fn cpu_model_name_prefers_model_name_over_processor() {
    let general = AndroidGeneralReadout::new();
    let table = "Processor : AArch64 rev 4\nmodel name : Cortex\nProcessor : other\n";
    assert_eq!(general.cpu_model_name(Some(table)), Ok("Cortex".to_string()));
}

#[test]
fn cpu_model_name_takes_the_first_model_name() {
    let general = AndroidGeneralReadout::new();
    let table = "processor : 0\nmodel name : One\nprocessor : 1\nmodel name : Two\n";
    assert_eq!(general.cpu_model_name(Some(table)), Ok("One".to_string()));
}

#[test]
fn cpu_model_name_takes_the_last_processor() {
    let general = AndroidGeneralReadout::new();
    let table = "Processor : One\nBogoMIPS : 38.40\nProcessor : Two\n";
    assert_eq!(general.cpu_model_name(Some(table)), Ok("Two".to_string()));
}

#[test]
fn cpu_model_name_strips_label_first_colon_and_white_space() {
    let general = AndroidGeneralReadout::new();
    assert_eq!(general.cpu_model_name(Some("Hardware:X")), Ok("X".to_string()));
    assert_eq!(general.cpu_model_name(Some("Hardware \t:  a:b  \r\n")), Ok("a:b".to_string()));
    assert_eq!(general.cpu_model_name(Some("Hardware")), Ok("".to_string()));
    assert_eq!(general.cpu_model_name(Some("Hardware X")), Ok("X".to_string()));
    assert_eq!(general.cpu_model_name(Some("model names : X")), Ok("s  X".to_string()));
}

#[test]
fn cpu_model_name_needs_the_label_at_the_start() {
    let general = AndroidGeneralReadout::new();
    assert_eq!(general.cpu_model_name(Some(" Hardware : X\n")), Err(not_found()));
    assert_eq!(general.cpu_model_name(Some("hardware : X\n")), Err(not_found()));
    assert_eq!(general.cpu_model_name(Some("processor : 0\nBogoMIPS : 3\n")), Err(not_found()));
}

#[test]
fn cpu_model_name_without_a_table_is_not_found() {
    let general = AndroidGeneralReadout::new();
    assert_eq!(general.cpu_model_name(Some("")), Err(not_found()));
    assert_eq!(general.cpu_model_name(None), Err(not_found()));
}

#[test]
fn machine_of_acme_zeta_z1_is_unchanged() {
    let general = AndroidGeneralReadout::new();
    assert_eq!(general.machine(&store("Acme", "Zeta", "Z1")), Ok("Acme Zeta (Z1)".to_string()));
}

#[test]
fn machine_of_a_long_line_keeps_repeated_words() {
    let general = AndroidGeneralReadout::new();
    assert_eq!(
        general.machine(&store("Samsung", "Samsung", "Galaxy")),
        Ok("Samsung Samsung (Galaxy)".to_string())
    );
    assert_eq!(
        general.machine(&store("Acme", "Acme  Zeta", "Z1")),
        Ok("Acme Acme  Zeta (Z1)".to_string())
    );
}

#[test]
fn machine_of_a_short_line_drops_repeated_words() {
    let general = AndroidGeneralReadout::new();
    assert_eq!(general.machine(&store("A", "A", "B")), Ok("A (B)".to_string()));
    assert_eq!(general.machine(&store("Mi", "Mi Mi", "x1")), Ok("Mi (x1)".to_string()));
    assert_eq!(general.machine(&store("a b", "b a", "c")), Ok("a b (c)".to_string()));
    assert_eq!(general.machine(&store("A", "a", "A")), Ok("A a (A)".to_string()));
}

#[test]
fn machine_of_a_short_line_joins_by_single_spaces() {
    let general = AndroidGeneralReadout::new();
    assert_eq!(general.machine(&store("A ", " B", "C")), Ok("A B (C)".to_string()));
    assert_eq!(general.machine(&store("", "", "")), Ok("()".to_string()));
    assert_eq!(general.machine(&store("", "B", " ")), Ok("B ( )".to_string()));
}

#[test]
fn machine_limit_is_fifteen_characters() {
    let general = AndroidGeneralReadout::new();
    assert_eq!(general.machine(&store("abcd", "abcd", "ab")), Ok("abcd (ab)".to_string()));
    assert_eq!(general.machine(&store("abcd", "abcd", "abc")), Ok("abcd (abc)".to_string()));
    assert_eq!(
        general.machine(&store("abcd", "abcd", "abcd")),
        Ok("abcd abcd (abcd)".to_string())
    );
}

#[test]
fn machine_counts_characters_not_bytes() {
    let general = AndroidGeneralReadout::new();
    assert_eq!(general.machine(&store("ÄÖÜ", "ÄÖÜ", "ÄÖÜÄÖ")), Ok("ÄÖÜ (ÄÖÜÄÖ)".to_string()));
    assert_eq!(
        general.machine(&store("ÄÖÜ", "ÄÖÜ", "ÄÖÜÄÖÜ")),
        Ok("ÄÖÜ ÄÖÜ (ÄÖÜÄÖÜ)".to_string())
    );
}

#[test]
fn machine_fails_with_the_first_missing_property() {
    let general = AndroidGeneralReadout::new();
    let failed = ReadoutError::Other("getprop failed".to_string());
    assert_eq!(general.machine(&PropertyStore::new()), Err(ReadoutError::Other("getprop failed".to_string())));
    let mut partial = PropertyStore::new();
    partial.set(VENDOR_KEY, "Acme");
    assert_eq!(general.machine(&partial), Err(ReadoutError::Other("getprop failed".to_string())));
    partial.set(FAMILY_KEY, "Zeta");
    assert_eq!(general.machine(&partial), Err(failed));
    partial.set(PRODUCT_KEY, "Z1");
    assert_eq!(general.machine(&partial), Ok("Acme Zeta (Z1)".to_string()));
}

#[test]
fn load_percent_rounds_to_the_nearest_percent() {
    assert_eq!(load_percent(2048, 1), 100);
    assert_eq!(load_percent(2048, 2), 50);
    assert_eq!(load_percent(1024, 2), 25);
    assert_eq!(load_percent(2048, 3), 33);
    assert_eq!(load_percent(4096, 3), 67);
    assert_eq!(load_percent(0, 4), 0);
    assert_eq!(load_percent(10, 1), 0);
    assert_eq!(load_percent(11, 1), 1);
    assert_eq!(load_percent(256, 1), 13);
    assert_eq!(load_percent(30, 1), 1);
    assert_eq!(load_percent(31, 1), 2);
    assert_eq!(load_percent(7424, 25), 15);
    assert_eq!(load_percent(20480, 1), 1000);
}

#[test]
fn load_percent_of_the_largest_load() {
    let expected = ((200u128 * u64::MAX as u128 + 2048) / 4096) as usize;
    assert_eq!(load_percent(u64::MAX, 1), expected);
    assert_eq!(load_percent(u64::MAX, usize::MAX), 0);
    assert_eq!(load_percent(u64::MAX, 1 << 20), ((200u128 * u64::MAX as u128 + (1 << 31)) >> 32) as usize);
}

#[test]
fn cpu_usage_of_zero_percent_is_an_error() {
    let general = AndroidGeneralReadout::new();
    let null = ReadoutError::Other("Processor usage is null.".to_string());
    assert_eq!(general.cpu_usage_on(Some(stats(0, 1)), 1), Err(ReadoutError::Other("Processor usage is null.".to_string())));
    assert_eq!(general.cpu_usage_on(Some(stats(10, 1)), 1), Err(ReadoutError::Other("Processor usage is null.".to_string())));
    assert_eq!(general.cpu_usage_on(Some(stats(40, 1)), 4), Err(null));
    assert_eq!(general.cpu_usage_on(Some(stats(41, 1)), 4), Ok(1));
    assert_eq!(general.cpu_usage(Some(stats(0, 1))), Err(ReadoutError::Other("Processor usage is null.".to_string())));
}

#[test]
fn cpu_usage_reads_the_first_load_average() {
    let general = AndroidGeneralReadout::new();
    assert_eq!(general.cpu_usage_on(Some(stats(2048, 1)), 1), Ok(100));
    assert_eq!(general.cpu_usage_on(Some(stats(3072, 1)), 8), Ok(19));
}

#[test]
fn cpu_usage_without_a_snapshot_is_a_syscall_failure() {
    let general = AndroidGeneralReadout::new();
    assert_eq!(general.cpu_usage_on(None, 4), Err(ReadoutError::SyscallFailure));
    assert_eq!(general.cpu_usage(None), Err(ReadoutError::SyscallFailure));
}

#[test]
fn cpu_usage_on_this_host_follows_its_cores() {
    let general = AndroidGeneralReadout::new();
    let cores = general.cpu_cores().unwrap();
    assert!(cores >= 1);
    let load = 2048 * cores as u64;
    assert_eq!(general.cpu_usage(Some(stats(load, 1))), Ok(100));
    assert_eq!(general.cpu_usage(Some(stats(load, 1))), general.cpu_usage_on(Some(stats(load, 1)), cores));
}

#[test]
fn core_counts_are_at_least_one() {
    let general = AndroidGeneralReadout::new();
    assert!(general.cpu_cores().unwrap() >= 1);
    assert!(general.cpu_physical_cores().unwrap() >= 1);
}

#[test]
fn uptime_is_the_raw_field() {
    let general = AndroidGeneralReadout::new();
    assert_eq!(general.uptime(Some(stats(0, 86_400))), Ok(86_400));
    assert_eq!(general.uptime(Some(stats(0, 0))), Ok(0));
    assert_eq!(general.uptime(None), Err(ReadoutError::SyscallFailure));
}

#[test]
fn hostname_and_username() {
    let general = AndroidGeneralReadout::new();
    assert_eq!(general.hostname(Some("localhost")), Ok("localhost".to_string()));
    assert_eq!(general.hostname(None), Err(ReadoutError::SyscallFailure));
    assert_eq!(general.username(Some("u0_a123")), Ok("u0_a123".to_string()));
    assert_eq!(
        general.username(None),
        Err(ReadoutError::Other("Unable to get username".to_string()))
    );
}

#[test]
fn shell_is_the_file_name_of_the_override() {
    let general = AndroidGeneralReadout::new();
    assert_eq!(
        general.shell(Some("/data/data/com.termux/files/usr/bin/zsh"), ShellFormat::Absolute, ShellKind::Default),
        ShellSource::Named("zsh".to_string())
    );
    assert_eq!(
        general.shell(Some("bash"), ShellFormat::Relative, ShellKind::Current),
        ShellSource::Named("bash".to_string())
    );
    assert_eq!(
        general.shell(Some("/system/bin/sh/"), ShellFormat::Relative, ShellKind::Current),
        ShellSource::Named("sh".to_string())
    );
}

#[test]
fn shell_falls_back_to_detection() {
    let general = AndroidGeneralReadout::new();
    assert_eq!(
        general.shell(None, ShellFormat::Absolute, ShellKind::Default),
        ShellSource::Detect(ShellFormat::Absolute, ShellKind::Default)
    );
    assert_eq!(
        general.shell(Some("/"), ShellFormat::Relative, ShellKind::Current),
        ShellSource::Detect(ShellFormat::Relative, ShellKind::Current)
    );
    assert_eq!(
        general.shell(Some(""), ShellFormat::Relative, ShellKind::Default),
        ShellSource::Detect(ShellFormat::Relative, ShellKind::Default)
    );
    assert_eq!(
        general.shell(Some("/bin/.."), ShellFormat::Absolute, ShellKind::Current),
        ShellSource::Detect(ShellFormat::Absolute, ShellKind::Current)
    );
}

fn interfaces() -> Vec<NetworkInterface> {
    vec![
        NetworkInterface { name: "lo".to_string(), address: "127.0.0.1".to_string() },
        NetworkInterface { name: "wlan0".to_string(), address: "192.168.1.7".to_string() },
        NetworkInterface { name: "wlan0".to_string(), address: "fe80::1".to_string() },
        NetworkInterface { name: "rmnet0".to_string(), address: "10.0.0.2".to_string() },
    ]
}

#[test]
fn local_ip_filters_by_interface() {
    let general = AndroidGeneralReadout::new();
    assert_eq!(general.local_ip(Some("wlan0"), &interfaces()), Ok("192.168.1.7".to_string()));
    assert_eq!(general.local_ip(Some("rmnet0"), &interfaces()), Ok("10.0.0.2".to_string()));
    assert_eq!(general.local_ip(Some("lo"), &interfaces()), Ok("127.0.0.1".to_string()));
    assert_eq!(general.local_ip(None, &interfaces()), Ok("127.0.0.1".to_string()));
}

#[test]
fn local_ip_without_a_match_is_an_error() {
    let general = AndroidGeneralReadout::new();
    let failed = ReadoutError::Other("Unable to get local IP address".to_string());
    assert_eq!(general.local_ip(Some("eth0"), &interfaces()), Err(ReadoutError::Other("Unable to get local IP address".to_string())));
    assert_eq!(general.local_ip(Some("wlan"), &interfaces()), Err(ReadoutError::Other("Unable to get local IP address".to_string())));
    assert_eq!(general.local_ip(None, &Vec::new()), Err(failed));
}
