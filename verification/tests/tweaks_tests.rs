use tweakers::tweaks::cpu::{available_governors, core_count, get_current_freq, read_turbo_disabled};
use tweakers::tweaks::gpu::{read_intel_fbc, read_intel_guc, read_intel_psr, read_intel_rc6};
use tweakers::tweaks::kernel::{kernel_version, read_sysctl_value, read_thp, sysctl_path};
use tweakers::tweaks::memory::get_memory_info;
use tweakers::tweaks::network::{available_congestion_controls, check_bbr, network_stats_paths};
use tweakers::tweaks::power::{check_audio_powersave, check_wifi_powersave, wireless_interface, wifi_interfaces};
use tweakers::tweaks::storage::{block_devices, check_noatime, first_block_device, read_io_scheduler, scheduler_path};
use tweakers::tweaks::{generate_i915_config, generate_sysctl_config, settings_from_readings, SettingsReadings, TweakSettings};

fn no_readings() -> SettingsReadings {
    SettingsReadings {
        cpu_governor: None,
        turbo_disabled: None,
        swappiness: None,
        vfs_cache_pressure: None,
        dirty_ratio: None,
        dirty_background_ratio: None,
        zram_enabled: false,
        io_scheduler: None,
        trim_enabled: false,
        noatime: false,
        intel_guc: false,
        intel_psr: false,
        intel_fbc: false,
        intel_rc6: false,
        wifi_powersave: false,
        audio_powersave: false,
        pcie_aspm: None,
        tcp_fastopen: None,
        tcp_low_latency: None,
        bbr_enabled: false,
        watchdog: None,
        transparent_hugepages: None,
    }
}

#[test]
fn failed_reads_fall_back_to_defaults() {
    let s = settings_from_readings(no_readings());
    assert_eq!(s.cpu_governor, "schedutil");
    assert!(s.turbo_enabled);
    assert_eq!(s.swappiness, 60);
    assert_eq!(s.vfs_cache_pressure, 100);
    assert_eq!(s.dirty_ratio, 20);
    assert_eq!(s.dirty_background_ratio, 10);
    assert_eq!(s.io_scheduler, "mq-deadline");
    assert_eq!(s.pcie_aspm, "default");
    assert_eq!(s.tcp_fastopen, 3);
    assert!(!s.tcp_low_latency);
    assert!(s.watchdog_enabled);
    assert_eq!(s.transparent_hugepages, "madvise");
}

#[test]
fn readings_are_kept() {
    let mut r = no_readings();
    r.cpu_governor = Some("performance".into());
    r.turbo_disabled = Some(true);
    r.swappiness = Some(10);
    r.watchdog = Some(0);
    r.tcp_low_latency = Some(true);
    r.transparent_hugepages = Some("never".into());
    r.intel_rc6 = true;
    let s = settings_from_readings(r);
    assert_eq!(s.cpu_governor, "performance");
    assert!(!s.turbo_enabled);
    assert_eq!(s.swappiness, 10);
    assert!(!s.watchdog_enabled);
    assert!(s.tcp_low_latency);
    assert_eq!(s.transparent_hugepages, "never");
    assert!(s.intel_rc6);
}

fn sample_settings() -> TweakSettings {
    let mut s = TweakSettings::default();
    s.swappiness = 10;
    s.vfs_cache_pressure = 50;
    s.dirty_ratio = 15;
    s.dirty_background_ratio = 5;
    s.tcp_fastopen = 3;
    s.tcp_low_latency = true;
    s.bbr_enabled = true;
    s.watchdog_enabled = false;
    s
}

#[test]
fn sysctl_config_exact() {
    let expected = "# Tweakers - System Optimizations
# Generated automatically - do not edit manually

# Memory Management
vm.swappiness = 10
vm.vfs_cache_pressure = 50
vm.dirty_ratio = 15
vm.dirty_background_ratio = 5
vm.min_free_kbytes = 65536

# Network Optimizations
net.core.rmem_default = 262144
net.core.rmem_max = 16777216
net.core.wmem_default = 262144
net.core.wmem_max = 16777216
net.core.netdev_max_backlog = 5000
net.core.somaxconn = 65535
net.ipv4.tcp_max_syn_backlog = 65536
net.ipv4.tcp_fin_timeout = 10

# Custom Network Optimizations
net.ipv4.tcp_fastopen = 3
net.ipv4.tcp_low_latency = 1
net.core.default_qdisc = fq
net.ipv4.tcp_congestion_control = bbr

# Kernel Optimizations
kernel.watchdog = 0
kernel.nmi_watchdog = 0
";
    assert_eq!(generate_sysctl_config(&sample_settings()), expected);
}

#[test]
fn sysctl_config_without_bbr() {
    let mut s = sample_settings();
    s.bbr_enabled = false;
    s.watchdog_enabled = true;
    let c = generate_sysctl_config(&s);
    assert!(!c.contains("bbr"));
    assert!(c.ends_with("kernel.watchdog = 1\nkernel.nmi_watchdog = 1\n"));
}

#[test]
fn sysctl_values_read_back() {
    let c = generate_sysctl_config(&sample_settings());
    let line = c.lines().find(|l| l.starts_with("vm.swappiness")).unwrap();
    let value = line.split('=').nth(1).unwrap();
    assert_eq!(read_sysctl_value(value), 10);
}

#[test]
fn i915_config_lists_options_in_order() {
    let mut s = TweakSettings::default();
    assert_eq!(generate_i915_config(&s), "");
    s.intel_psr = true;
    assert_eq!(generate_i915_config(&s), "options i915 enable_psr=1");
    s.intel_guc = true;
    s.intel_fbc = true;
    s.intel_rc6 = true;
    assert_eq!(
        generate_i915_config(&s),
        "options i915 enable_guc=2 enable_fbc=1 enable_psr=1 enable_rc6=1"
    );
}

#[test]
fn governors() {
    assert_eq!(available_governors(Some("performance powersave\n")), vec!["performance", "powersave"]);
    assert_eq!(available_governors(None), vec!["powersave", "schedutil", "performance"]);
}

#[test]
fn turbo() {
    assert_eq!(read_turbo_disabled(true, Some("1\n")), Some(true));
    assert_eq!(read_turbo_disabled(true, Some("0\n")), Some(false));
    assert_eq!(read_turbo_disabled(true, None), None);
    assert_eq!(read_turbo_disabled(false, Some("0\n")), Some(true));
    assert_eq!(read_turbo_disabled(false, Some("1")), Some(false));
    assert_eq!(read_turbo_disabled(false, None), Some(false));
}

#[test]
fn frequency_and_cores() {
    assert_eq!(get_current_freq("2400000\n"), 2400000);
    assert_eq!(get_current_freq("n/a"), 0);
    assert!(core_count() >= 1);
}

#[test]
fn gpu_parameters() {
    assert!(read_intel_guc(Some("2\n")));
    assert!(read_intel_guc(Some("3")));
    assert!(read_intel_guc(Some("Y")));
    assert!(!read_intel_guc(Some("1")));
    assert!(!read_intel_guc(None));
    assert!(read_intel_psr(Some("1")));
    assert!(read_intel_psr(Some("y\n")));
    assert!(!read_intel_psr(Some("-1")));
    assert!(read_intel_fbc(Some("1")));
    assert!(!read_intel_fbc(Some("0")));
    assert!(read_intel_rc6(Some("1")));
    assert!(!read_intel_rc6(Some(" 0 ")));
    assert!(!read_intel_rc6(None));
}

#[test]
fn kernel_values() {
    assert_eq!(read_thp("always [madvise] never\n"), "madvise");
    assert_eq!(read_thp("[always] madvise never"), "always");
    assert_eq!(read_thp("always madvise never"), "madvise");
    assert_eq!(sysctl_path("vm.swappiness"), "/proc/sys/vm/swappiness");
    assert_eq!(sysctl_path("net.ipv4.tcp_fastopen"), "/proc/sys/net/ipv4/tcp_fastopen");
    assert_eq!(read_sysctl_value(" 60\n"), 60);
    assert_eq!(read_sysctl_value("x"), 0);
    assert_eq!(
        kernel_version("Linux version 6.8.0-45-generic (buildd@lcy02) #45 SMP"),
        "6.8.0-45-generic"
    );
    assert_eq!(kernel_version("Linux version"), "Linux version");
    assert_eq!(kernel_version("a b c"), "c");
}

#[test]
fn memory_info() {
    let meminfo = "MemTotal:       16384000 kB\nMemFree:         1000000 kB\nMemAvailable:    8192000 kB\n";
    assert_eq!(get_memory_info(meminfo), (16000, 8000));
    assert_eq!(get_memory_info("nothing here"), (0, 0));
    assert_eq!(get_memory_info("MemTotal: 2048 kB\nMemTotal: 4096 kB\n"), (4, 0));
}

#[test]
fn network_values() {
    assert!(check_bbr(Some("bbr\n")));
    assert!(!check_bbr(Some("cubic\n")));
    assert!(!check_bbr(None));
    assert_eq!(
        available_congestion_controls(Some("net.ipv4.tcp_available_congestion_control = reno cubic bbr\n")),
        vec!["reno", "cubic", "bbr"]
    );
    assert_eq!(available_congestion_controls(Some("no equals")), vec!["cubic", "bbr"]);
    assert_eq!(available_congestion_controls(None), vec!["cubic", "bbr"]);
    let (rx, tx) = network_stats_paths("eth0");
    assert_eq!(rx, "/sys/class/net/eth0/statistics/rx_bytes");
    assert_eq!(tx, "/sys/class/net/eth0/statistics/tx_bytes");
}

#[test]
fn wifi_power_saving() {
    assert_eq!(wifi_interfaces(), vec!["wlan0", "wlo1", "wifi0"]);
    let iw = vec![None, Some("Power save: on\n".to_string()), None];
    assert!(check_wifi_powersave(&iw, &vec![]));
    let iw_off = vec![Some("Power save: off".to_string())];
    assert!(!check_wifi_powersave(&iw_off, &vec![Some("Power Management:on".to_string())]));
    let iwconfig = vec![
        Some("no wireless extensions.".to_string()),
        Some("wlo1  IEEE 802.11  Power Management:on".to_string()),
    ];
    assert!(check_wifi_powersave(&vec![None, None, None], &iwconfig));
    let iwconfig_off = vec![Some("Power Management:off".to_string()), Some("Power Management:on".to_string())];
    assert!(!check_wifi_powersave(&vec![], &iwconfig_off));
    assert!(!check_wifi_powersave(&vec![], &vec![]));
}

#[test]
fn wireless_interface_name() {
    let out = "1: lo: <LOOPBACK,UP> mtu 65536\n2: wlo1: <BROADCAST,MULTICAST,UP> mtu 1500\n";
    assert_eq!(wireless_interface(out), Some("wlo1".to_string()));
    assert_eq!(wireless_interface("1: lo: <LOOPBACK>\n"), None);
}

#[test]
fn audio_power_saving() {
    assert!(check_audio_powersave(&vec![Some("1\n".into())]));
    assert!(!check_audio_powersave(&vec![Some("0\n".into()), Some("1".into())]));
    assert!(check_audio_powersave(&vec![None, Some("10".into())]));
    assert!(!check_audio_powersave(&vec![None, None]));
}

#[test]
fn storage_values() {
    assert_eq!(
        read_io_scheduler(&vec![None, Some("none [mq-deadline] kyber\n".into())]),
        "mq-deadline"
    );
    assert_eq!(read_io_scheduler(&vec![Some("[none] kyber".into())]), "none");
    assert_eq!(read_io_scheduler(&vec![Some("none kyber".into()), Some("[kyber]".into())]), "kyber");
    assert_eq!(read_io_scheduler(&vec![]), "mq-deadline");
    assert!(check_noatime(Some("UUID=1 / ext4 defaults,noatime 0 1")));
    assert!(check_noatime(Some("relatime")));
    assert!(!check_noatime(Some("defaults")));
    assert!(!check_noatime(None));
    assert_eq!(block_devices(), vec!["nvme0n1", "nvme1n1", "sda", "sdb", "vda"]);
    assert_eq!(scheduler_path("sda"), "/sys/block/sda/queue/scheduler");
    assert_eq!(first_block_device(&vec![false, false, true, true, false]), Some("sda".to_string()));
    assert_eq!(first_block_device(&vec![false; 5]), None);
}
