use seyos::infos::{parse_infos, parse_lowered, str_eq, AvailableInfos, SystemFacts};
use seyos::os_identity::{asset_key, client_id, get_os};
use seyos::presence::{Options, PresenceInfo};
use seyos::schedule::{after_cycle, sleep_duration, CycleDecision, REFRESH_PERIOD_MS};
use seyos::text::{decimal, fixed2, is_space, remove_all, trim};

fn facts() -> SystemFacts {
    SystemFacts {
        os_name: Some("Arch Linux".to_string()),
        long_os_version: Some("Linux rolling Arch Linux".to_string()),
        kernel_version: Some("6.1.0".to_string()),
        host_name: Some("box".to_string()),
        boot_time: 1_600_000_000,
        uptime: 3600,
        load_average_five: "0.52".to_string(),
        available_memory_kb: 2_000_000,
        total_memory_kb: 8_000_000,
        component_temperatures: vec![40_000_000, 60_000_000],
        processor_brand: "Intel X".to_string(),
        processor_usage: 12_345_000,
    }
}

fn options() -> Options {
    Options {
        short_os_name: false,
        include_kernel: false,
        additional_information: None,
        application_time: false,
        list_available_information: false,
    }
}

#[test]
fn missing_os_name_falls_back() {
    let (name, key) = get_os(&None);
    assert_eq!(name, "Linux");
    assert_eq!(key, "default");
}

#[test]
fn present_os_name_is_kept_and_keyed() {
    let (name, key) = get_os(&Some("Arch Linux".to_string()));
    assert_eq!(name, "Arch Linux");
    assert_eq!(key, "arch");
    assert_eq!(get_os(&Some("Ubuntu 22.04".to_string())).1, "ubuntu 22.04");
    assert_eq!(get_os(&Some("macOS".to_string())).1, "mac");
    assert_eq!(get_os(&Some("  Pop!_OS ".to_string())).1, "pop!_");
    assert_eq!(get_os(&Some("Linux".to_string())).0, "Linux");
    assert_eq!(get_os(&Some("Linux".to_string())).1, "");
}

#[test]
fn asset_key_has_no_removed_words_or_edge_space() {
    for raw in ["Arch Linux", "  Fedora Linux  ", "ROS OS", "Debian GNU/Linux", "\tOS X\n"] {
        let key = get_os(&Some(raw.to_string())).1;
        assert!(!key.contains("linux") && !key.contains("os"), "{}", key);
        assert_eq!(key.trim(), key);
        assert!(!key.chars().any(|c| c.is_ascii_uppercase()));
    }
}

#[test]
fn asset_key_removes_words_formed_by_joining() {
    assert_eq!(asset_key("lilinuxnux"), "");
    assert_eq!(asset_key("ooss"), "");
    assert_eq!(asset_key("linosux"), "");
    assert_eq!(asset_key("a oossb"), "a b");
    assert_eq!(get_os(&Some("LinOSux Mint".to_string())).1, "mint");
}

#[test]
fn parse_ignores_case_and_whitespace() {
    assert_eq!(parse_infos(" CPU "), AvailableInfos::Cpu);
    assert_eq!(parse_infos("cpu"), AvailableInfos::Cpu);
    assert_eq!(parse_infos("HostName"), AvailableInfos::Hostname);
    assert_eq!(parse_infos("\tAverage-Temperature\n"), AvailableInfos::AvgTemperature);
    assert_eq!(parse_infos("memory"), AvailableInfos::Memory);
    assert_eq!(parse_infos("load"), AvailableInfos::Load);
}

#[test]
fn parse_falls_back_to_load() {
    assert_eq!(parse_infos("bogus"), AvailableInfos::Load);
    assert_eq!(parse_infos(""), AvailableInfos::Load);
    assert_eq!(parse_infos("c p u"), AvailableInfos::Load);
    assert_eq!(parse_lowered("CPU"), AvailableInfos::Load);
    assert_eq!(parse_lowered(" cpu "), AvailableInfos::Cpu);
}

#[test]
fn render_memory() {
    assert_eq!(AvailableInfos::Memory.get_requested(&facts()), "2.00/8.00 GB RAM");
    let mut f = facts();
    f.available_memory_kb = 1_234_567;
    f.total_memory_kb = 16_384_000;
    assert_eq!(AvailableInfos::Memory.get_requested(&f), "1.23/16.38 GB RAM");
    f.available_memory_kb = 5_000;
    f.total_memory_kb = 0;
    assert_eq!(AvailableInfos::Memory.get_requested(&f), "0.01/0.00 GB RAM");
}

#[test]
fn render_cpu() {
    assert_eq!(AvailableInfos::Cpu.get_requested(&facts()), "Intel X (12.35%)");
    let mut f = facts();
    f.processor_usage = 100_000_000;
    assert_eq!(AvailableInfos::Cpu.get_requested(&f), "Intel X (100.00%)");
    f.processor_usage = 12_344_900;
    assert_eq!(AvailableInfos::Cpu.get_requested(&f), "Intel X (12.34%)");
}

#[test]
fn render_average_temperature() {
    assert_eq!(AvailableInfos::AvgTemperature.get_requested(&facts()), "50.00 °C");
    let mut f = facts();
    f.component_temperatures = vec![];
    assert_eq!(AvailableInfos::AvgTemperature.get_requested(&f), "N/A");
    f.component_temperatures = vec![-1_500_000];
    assert_eq!(AvailableInfos::AvgTemperature.get_requested(&f), "-1.50 °C");
    f.component_temperatures = vec![1_234_000, 1_235_000];
    assert_eq!(AvailableInfos::AvgTemperature.get_requested(&f), "1.23 °C");
    f.component_temperatures = vec![i64::MAX, i64::MAX];
    assert_eq!(
        AvailableInfos::AvgTemperature.get_requested(&f),
        "9223372036854.78 °C"
    );
}

#[test]
fn render_load_and_host() {
    assert_eq!(AvailableInfos::Load.get_requested(&facts()), "Load: 0.52");
    assert_eq!(AvailableInfos::Hostname.get_requested(&facts()), "box");
    let mut f = facts();
    f.host_name = None;
    assert_eq!(AvailableInfos::Hostname.get_requested(&f), "Arch Linux");
    f.os_name = None;
    assert_eq!(AvailableInfos::Hostname.get_requested(&f), "");
}

#[test]
fn listing_names_all_keys() {
    let all = AvailableInfos::get_all();
    assert_eq!(all, "Hostname\nAverage-Temperature\nMemory\nCpu\n");
    let mut o = options();
    o.list_available_information = true;
    let listed = o.listing().expect("listing asked for");
    for key in ["Hostname", "Average-Temperature", "Memory", "Cpu"] {
        assert!(listed.contains(key));
    }
    assert!(options().listing().is_none());
}

#[test]
fn short_name_with_kernel() {
    let mut f = facts();
    f.long_os_version = None;
    let mut o = options();
    o.short_os_name = true;
    o.include_kernel = true;
    let mut info = PresenceInfo::empty(100).unwrap();
    info.refresh(&f, &o);
    assert_eq!(info.os_name, "Arch Linux 6.1.0");
    assert_eq!(info.asset_name, "arch");
    assert_eq!(info.information, "Load: 0.52");
    assert_eq!(info.uptime, 1_600_000_000);
}

#[test]
fn long_name_and_missing_kernel() {
    let mut f = facts();
    f.kernel_version = None;
    let mut o = options();
    o.include_kernel = true;
    o.application_time = true;
    o.additional_information = Some(" Memory ".to_string());
    let mut info = PresenceInfo::empty(100).unwrap();
    info.refresh(&f, &o);
    assert_eq!(info.os_name, "Linux rolling Arch Linux 0.0");
    assert_eq!(info.information, "2.00/8.00 GB RAM");
    assert_eq!(info.uptime, 100);
    f.long_os_version = None;
    f.os_name = None;
    info.refresh(&f, &options());
    assert_eq!(info.os_name, "Linux");
    assert_eq!(info.asset_name, "default");
}

#[test]
fn empty_snapshot_and_clock_before_epoch() {
    let info = PresenceInfo::empty(1_700_000_000).unwrap();
    assert_eq!(info.os_name, "linux");
    assert_eq!(info.information, "");
    assert_eq!(info.asset_name, "default");
    assert_eq!(info.uptime, 1_700_000_000);
    assert!(PresenceInfo::empty(-1).is_none());
}

#[test]
fn activity_carries_the_snapshot() {
    let mut info = PresenceInfo::empty(5).unwrap();
    info.refresh(&facts(), &options());
    let a = info.activity();
    assert_eq!(a.state, "Load: 0.52");
    assert_eq!(a.details, "Linux rolling Arch Linux");
    assert_eq!(a.large_image, "arch");
    assert_eq!(a.large_text, "arch");
    assert_eq!(a.start, 1_600_000_000);
}

#[test]
fn sleep_keeps_the_period() {
    assert_eq!(sleep_duration(REFRESH_PERIOD_MS, 5_000), 15_000);
    assert_eq!(sleep_duration(REFRESH_PERIOD_MS, 0), 20_000);
    assert_eq!(sleep_duration(REFRESH_PERIOD_MS, 20_000), 0);
    assert_eq!(sleep_duration(REFRESH_PERIOD_MS, 25_000), 0);
}

#[test]
fn publish_failure_keeps_the_loop_running() {
    let first = after_cycle(false, false, 1_000);
    assert_eq!(
        first,
        CycleDecision::Continue { warn_publish_failed: true, sleep_ms: 19_000 }
    );
    let second = after_cycle(false, true, 30_000);
    assert_eq!(
        second,
        CycleDecision::Continue { warn_publish_failed: false, sleep_ms: 0 }
    );
    assert_eq!(after_cycle(true, false, 1_000), CycleDecision::Stop);
}

#[test]
fn text_helpers() {
    assert_eq!(trim("  a b \u{3000}"), "a b");
    assert_eq!(trim(" \t "), "");
    assert!(is_space('\u{a0}') && !is_space('x'));
    assert_eq!(remove_all("aXbXXc", "X"), "abc");
    assert_eq!(remove_all("ababab", "aba"), "bab");
    assert_eq!(decimal(0), "0");
    assert_eq!(decimal(u64::MAX), "18446744073709551615");
    assert_eq!(fixed2(5), "0.05");
    assert_eq!(fixed2(1_234), "12.34");
    assert!(str_eq("ab", "ab") && !str_eq("ab", "abc"));
}

#[test]
fn lowercasing_reaches_the_key_and_the_parser() {
    assert_eq!(get_os(&Some("ABC Linux".to_string())).1, "abc");
    assert_eq!(parse_infos("MEMORY"), AvailableInfos::Memory);
}

#[test]
fn client_id_by_platform() {
    assert_eq!(client_id("darwin"), 899912704188379136);
    assert_eq!(client_id("windows"), 0);
    assert_eq!(client_id("arch"), 898584015076982865);
    assert_eq!(client_id(""), 898584015076982865);
}
