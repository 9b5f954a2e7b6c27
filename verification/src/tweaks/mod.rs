//! System tweak settings: the settings record, how it is assembled from what
//! the system reports, and the configuration files generated from it.
pub mod cpu;
pub mod gpu;
pub mod kernel;
pub mod memory;
pub mod network;
pub mod power;
pub mod storage;

use vstd::prelude::*;
use crate::text::{decimal, owned, push_decimal, push_text};

verus! {

/// Every tunable that the tweaks page manages.
#[derive(Clone, Debug)]
pub struct TweakSettings {
    // CPU
    pub cpu_governor: String,
    pub turbo_enabled: bool,
    // Memory
    pub swappiness: u32,
    pub vfs_cache_pressure: u32,
    pub dirty_ratio: u32,
    pub dirty_background_ratio: u32,
    pub zram_enabled: bool,
    // Storage
    pub io_scheduler: String,
    pub trim_enabled: bool,
    pub noatime: bool,
    // GPU (Intel)
    pub intel_guc: bool,
    pub intel_psr: bool,
    pub intel_fbc: bool,
    pub intel_rc6: bool,
    // Power
    pub wifi_powersave: bool,
    pub audio_powersave: bool,
    pub pcie_aspm: String,
    // Network
    pub tcp_fastopen: u32,
    pub tcp_low_latency: bool,
    pub bbr_enabled: bool,
    // Kernel
    pub watchdog_enabled: bool,
    pub transparent_hugepages: String,
}

impl Default for TweakSettings {
    fn default() -> (s: Self)
        ensures
            s.cpu_governor@ == Seq::<char>::empty(),
            !s.turbo_enabled,
            s.swappiness == 0,
            s.vfs_cache_pressure == 0,
            s.dirty_ratio == 0,
            s.dirty_background_ratio == 0,
            !s.zram_enabled,
            s.io_scheduler@ == Seq::<char>::empty(),
            !s.trim_enabled,
            !s.noatime,
            !s.intel_guc,
            !s.intel_psr,
            !s.intel_fbc,
            !s.intel_rc6,
            !s.wifi_powersave,
            !s.audio_powersave,
            s.pcie_aspm@ == Seq::<char>::empty(),
            s.tcp_fastopen == 0,
            !s.tcp_low_latency,
            !s.bbr_enabled,
            !s.watchdog_enabled,
            s.transparent_hugepages@ == Seq::<char>::empty(),
    {
        TweakSettings {
            cpu_governor: String::new(),
            turbo_enabled: false,
            swappiness: 0,
            vfs_cache_pressure: 0,
            dirty_ratio: 0,
            dirty_background_ratio: 0,
            zram_enabled: false,
            io_scheduler: String::new(),
            trim_enabled: false,
            noatime: false,
            intel_guc: false,
            intel_psr: false,
            intel_fbc: false,
            intel_rc6: false,
            wifi_powersave: false,
            audio_powersave: false,
            pcie_aspm: String::new(),
            tcp_fastopen: 0,
            tcp_low_latency: false,
            bbr_enabled: false,
            watchdog_enabled: false,
            transparent_hugepages: String::new(),
        }
    }
}

/// What reading the system gave for each setting: `None` where the read
/// failed, so that the documented default applies.
pub struct SettingsReadings {
    pub cpu_governor: Option<String>,
    pub turbo_disabled: Option<bool>,
    pub swappiness: Option<u32>,
    pub vfs_cache_pressure: Option<u32>,
    pub dirty_ratio: Option<u32>,
    pub dirty_background_ratio: Option<u32>,
    pub zram_enabled: bool,
    pub io_scheduler: Option<String>,
    pub trim_enabled: bool,
    pub noatime: bool,
    pub intel_guc: bool,
    pub intel_psr: bool,
    pub intel_fbc: bool,
    pub intel_rc6: bool,
    pub wifi_powersave: bool,
    pub audio_powersave: bool,
    pub pcie_aspm: Option<String>,
    pub tcp_fastopen: Option<u32>,
    pub tcp_low_latency: Option<bool>,
    pub bbr_enabled: bool,
    pub watchdog: Option<u32>,
    pub transparent_hugepages: Option<String>,
}

/// A string reading, or `default` when the read failed.
pub open spec fn text_or(r: Option<String>, default: Seq<char>) -> Seq<char> {
    match r {
        Some(s) => s@,
        None => default,
    }
}

/// A numeric reading, or `default` when the read failed.
pub open spec fn num_or(r: Option<u32>, default: u32) -> u32 {
    match r {
        Some(n) => n,
        None => default,
    }
}

/// `s` holds the readings `r`, each failed reading replaced by its default.
pub open spec fn settings_from(s: TweakSettings, r: SettingsReadings) -> bool {
    &&& s.cpu_governor@ == text_or(r.cpu_governor, "schedutil"@)
    &&& s.turbo_enabled == !(match r.turbo_disabled {
        Some(b) => b,
        None => false,
    })
    &&& s.swappiness == num_or(r.swappiness, 60)
    &&& s.vfs_cache_pressure == num_or(r.vfs_cache_pressure, 100)
    &&& s.dirty_ratio == num_or(r.dirty_ratio, 20)
    &&& s.dirty_background_ratio == num_or(r.dirty_background_ratio, 10)
    &&& s.zram_enabled == r.zram_enabled
    &&& s.io_scheduler@ == text_or(r.io_scheduler, "mq-deadline"@)
    &&& s.trim_enabled == r.trim_enabled
    &&& s.noatime == r.noatime
    &&& s.intel_guc == r.intel_guc
    &&& s.intel_psr == r.intel_psr
    &&& s.intel_fbc == r.intel_fbc
    &&& s.intel_rc6 == r.intel_rc6
    &&& s.wifi_powersave == r.wifi_powersave
    &&& s.audio_powersave == r.audio_powersave
    &&& s.pcie_aspm@ == text_or(r.pcie_aspm, "default"@)
    &&& s.tcp_fastopen == num_or(r.tcp_fastopen, 3)
    &&& s.tcp_low_latency == (match r.tcp_low_latency {
        Some(b) => b,
        None => false,
    })
    &&& s.bbr_enabled == r.bbr_enabled
    &&& s.watchdog_enabled == (match r.watchdog {
        Some(v) => v == 1,
        None => true,
    })
    &&& s.transparent_hugepages@ == text_or(r.transparent_hugepages, "madvise"@)
}

fn text_or_default(r: Option<String>, default: &str) -> (s: String)
    ensures
        s@ == text_or(r, default@),
{
    match r {
        Some(s) => s,
        None => owned(default),
    }
}

/// The current settings, from what reading the system gave; a failed read
/// falls back to that setting's default.
pub fn settings_from_readings(r: SettingsReadings) -> (s: TweakSettings)
    ensures
        settings_from(s, r),
{
    TweakSettings {
        cpu_governor: text_or_default(r.cpu_governor, "schedutil"),
        turbo_enabled: !r.turbo_disabled.unwrap_or(false),
        swappiness: r.swappiness.unwrap_or(60),
        vfs_cache_pressure: r.vfs_cache_pressure.unwrap_or(100),
        dirty_ratio: r.dirty_ratio.unwrap_or(20),
        dirty_background_ratio: r.dirty_background_ratio.unwrap_or(10),
        zram_enabled: r.zram_enabled,
        io_scheduler: text_or_default(r.io_scheduler, "mq-deadline"),
        trim_enabled: r.trim_enabled,
        noatime: r.noatime,
        intel_guc: r.intel_guc,
        intel_psr: r.intel_psr,
        intel_fbc: r.intel_fbc,
        intel_rc6: r.intel_rc6,
        wifi_powersave: r.wifi_powersave,
        audio_powersave: r.audio_powersave,
        pcie_aspm: text_or_default(r.pcie_aspm, "default"),
        tcp_fastopen: r.tcp_fastopen.unwrap_or(3),
        tcp_low_latency: r.tcp_low_latency.unwrap_or(false),
        bbr_enabled: r.bbr_enabled,
        watchdog_enabled: match r.watchdog {
            Some(v) => v == 1,
            None => true,
        },
        transparent_hugepages: text_or_default(r.transparent_hugepages, "madvise"),
    }
}

/// `"1"` for `true`, `"0"` for `false`.
pub open spec fn flag_text(b: bool) -> Seq<char> {
    if b {
        "1"@
    } else {
        "0"@
    }
}

/// The sysctl configuration file written for `s`.
pub open spec fn sysctl_config(s: TweakSettings) -> Seq<char> {
    "# Tweakers - System Optimizations\n# Generated automatically - do not edit manually\n\n# Memory Management\nvm.swappiness = "@
        + decimal(s.swappiness as nat) + "\nvm.vfs_cache_pressure = "@ + decimal(
        s.vfs_cache_pressure as nat,
    ) + "\nvm.dirty_ratio = "@ + decimal(s.dirty_ratio as nat) + "\nvm.dirty_background_ratio = "@
        + decimal(s.dirty_background_ratio as nat)
        + "\nvm.min_free_kbytes = 65536\n\n# Network Optimizations\nnet.core.rmem_default = 262144\nnet.core.rmem_max = 16777216\nnet.core.wmem_default = 262144\nnet.core.wmem_max = 16777216\nnet.core.netdev_max_backlog = 5000\nnet.core.somaxconn = 65535\nnet.ipv4.tcp_max_syn_backlog = 65536\nnet.ipv4.tcp_fin_timeout = 10\n"@
        + "\n# Custom Network Optimizations\nnet.ipv4.tcp_fastopen = "@ + decimal(
        s.tcp_fastopen as nat,
    ) + "\nnet.ipv4.tcp_low_latency = "@ + flag_text(s.tcp_low_latency) + "\n"@ + (if s.bbr_enabled {
        "net.core.default_qdisc = fq\nnet.ipv4.tcp_congestion_control = bbr\n"@
    } else {
        Seq::empty()
    }) + "\n# Kernel Optimizations\nkernel.watchdog = "@ + flag_text(s.watchdog_enabled)
        + "\nkernel.nmi_watchdog = "@ + flag_text(s.watchdog_enabled) + "\n"@
}

fn push_flag(out: &mut String, b: bool)
    ensures
        final(out)@ == old(out)@ + flag_text(b),
{
    if b {
        push_text(out, "1");
    } else {
        push_text(out, "0");
    }
}

/// The content of the sysctl configuration file for `settings`.
pub fn generate_sysctl_config(settings: &TweakSettings) -> (config: String)
    ensures
        config@ == sysctl_config(*settings),
{
    let mut c = String::new();
    push_text(
        &mut c,
        "# Tweakers - System Optimizations\n# Generated automatically - do not edit manually\n\n# Memory Management\nvm.swappiness = ",
    );
    push_decimal(&mut c, settings.swappiness as u64);
    push_text(&mut c, "\nvm.vfs_cache_pressure = ");
    push_decimal(&mut c, settings.vfs_cache_pressure as u64);
    push_text(&mut c, "\nvm.dirty_ratio = ");
    push_decimal(&mut c, settings.dirty_ratio as u64);
    push_text(&mut c, "\nvm.dirty_background_ratio = ");
    push_decimal(&mut c, settings.dirty_background_ratio as u64);
    push_text(
        &mut c,
        "\nvm.min_free_kbytes = 65536\n\n# Network Optimizations\nnet.core.rmem_default = 262144\nnet.core.rmem_max = 16777216\nnet.core.wmem_default = 262144\nnet.core.wmem_max = 16777216\nnet.core.netdev_max_backlog = 5000\nnet.core.somaxconn = 65535\nnet.ipv4.tcp_max_syn_backlog = 65536\nnet.ipv4.tcp_fin_timeout = 10\n",
    );
    push_text(&mut c, "\n# Custom Network Optimizations\nnet.ipv4.tcp_fastopen = ");
    push_decimal(&mut c, settings.tcp_fastopen as u64);
    push_text(&mut c, "\nnet.ipv4.tcp_low_latency = ");
    push_flag(&mut c, settings.tcp_low_latency);
    push_text(&mut c, "\n");
    if settings.bbr_enabled {
        push_text(&mut c, "net.core.default_qdisc = fq\nnet.ipv4.tcp_congestion_control = bbr\n");
    }
    push_text(&mut c, "\n# Kernel Optimizations\nkernel.watchdog = ");
    push_flag(&mut c, settings.watchdog_enabled);
    push_text(&mut c, "\nkernel.nmi_watchdog = ");
    push_flag(&mut c, settings.watchdog_enabled);
    push_text(&mut c, "\n");
    assert(c@ =~= sysctl_config(*settings));
    c
}

/// The i915 module options that `s` turns on, in the order they are written.
pub open spec fn i915_options(s: TweakSettings) -> Seq<Seq<char>> {
    (if s.intel_guc { seq!["enable_guc=2"@] } else { Seq::empty() })
        + (if s.intel_fbc { seq!["enable_fbc=1"@] } else { Seq::empty() })
        + (if s.intel_psr { seq!["enable_psr=1"@] } else { Seq::empty() })
        + (if s.intel_rc6 { seq!["enable_rc6=1"@] } else { Seq::empty() })
}

/// `parts` joined with `sep` between neighbours (`[&str]::join`).
pub open spec fn join(parts: Seq<Seq<char>>, sep: Seq<char>) -> Seq<char>
    decreases parts.len(),
{
    if parts.len() == 0 {
        Seq::empty()
    } else if parts.len() == 1 {
        parts[0]
    } else {
        join(parts.drop_last(), sep) + sep + parts.last()
    }
}

/// The modprobe configuration for the i915 driver: empty when no option is on.
pub open spec fn i915_config(s: TweakSettings) -> Seq<char> {
    if i915_options(s).len() == 0 {
        Seq::empty()
    } else {
        "options i915 "@ + join(i915_options(s), " "@)
    }
}

/// The content of the i915 modprobe configuration for `settings`; empty
/// when none of the Intel options is on.
pub fn generate_i915_config(settings: &TweakSettings) -> (config: String)
    ensures
        config@ == i915_config(*settings),
{
    let mut options: Vec<&str> = Vec::new();
    if settings.intel_guc {
        options.push("enable_guc=2");
    }
    if settings.intel_fbc {
        options.push("enable_fbc=1");
    }
    if settings.intel_psr {
        options.push("enable_psr=1");
    }
    if settings.intel_rc6 {
        options.push("enable_rc6=1");
    }
    let ghost opts = options@.map_values(|o: &str| o@);
    assert(opts =~= i915_options(*settings));
    if options.len() == 0 {
        return String::new();
    }
    let mut c = owned("options i915 ");
    let mut i: usize = 0;
    while i < options.len()
        invariant
            i <= options.len(),
            opts == options@.map_values(|o: &str| o@),
            c@ == "options i915 "@ + join(opts.take(i as int), " "@),
        decreases options.len() - i,
    {
        if i > 0 {
            push_text(&mut c, " ");
        }
        push_text(&mut c, options[i]);
        assert(opts.take(i + 1).drop_last() =~= opts.take(i as int));
        assert(opts.take(i + 1).last() == options@[i as int]@);
        if i == 0 {
            assert(join(opts.take(1), " "@) == opts[0]);
        }
        assert(c@ =~= "options i915 "@ + join(opts.take(i + 1), " "@));
        i += 1;
    }
    assert(opts.take(options.len() as int) =~= opts);
    c
}

} // verus!

verus! {

/// The i915 configuration is empty exactly when none of the Intel options
/// is on, so that nothing is written for the driver then.
pub proof fn law_i915_empty_iff_no_option(s: TweakSettings)
    ensures
        (i915_config(s).len() == 0) <==> !(s.intel_guc || s.intel_fbc || s.intel_psr || s.intel_rc6),
{
    reveal_strlit("options i915 ");
}

} // verus!

verus! {

/// Every number that was read is the setting it was read for: a successful
/// reading `n` gives exactly `n`, and a failed one gives that setting's
/// documented default (60, 100, 20, 10 and 3).
pub proof fn law_numeric_readings_kept(s: TweakSettings, r: SettingsReadings)
    requires
        settings_from(s, r),
    ensures
        r.swappiness matches Some(n) ==> s.swappiness == n,
        r.vfs_cache_pressure matches Some(n) ==> s.vfs_cache_pressure == n,
        r.dirty_ratio matches Some(n) ==> s.dirty_ratio == n,
        r.dirty_background_ratio matches Some(n) ==> s.dirty_background_ratio == n,
        r.tcp_fastopen matches Some(n) ==> s.tcp_fastopen == n,
        r.swappiness is None ==> s.swappiness == 60,
        r.vfs_cache_pressure is None ==> s.vfs_cache_pressure == 100,
        r.dirty_ratio is None ==> s.dirty_ratio == 20,
        r.dirty_background_ratio is None ==> s.dirty_background_ratio == 10,
        r.tcp_fastopen is None ==> s.tcp_fastopen == 3,
{
}

/// Each setting depends only on its own reading: two sets of readings that
/// agree on one reading give the same value for that setting, whatever the
/// other readings are.
pub proof fn law_setting_follows_own_reading(
    s1: TweakSettings,
    r1: SettingsReadings,
    s2: TweakSettings,
    r2: SettingsReadings,
)
    requires
        settings_from(s1, r1),
        settings_from(s2, r2),
    ensures
        r1.swappiness == r2.swappiness ==> s1.swappiness == s2.swappiness,
        r1.vfs_cache_pressure == r2.vfs_cache_pressure ==> s1.vfs_cache_pressure == s2.vfs_cache_pressure,
        r1.dirty_ratio == r2.dirty_ratio ==> s1.dirty_ratio == s2.dirty_ratio,
        r1.dirty_background_ratio == r2.dirty_background_ratio ==> s1.dirty_background_ratio
            == s2.dirty_background_ratio,
        r1.tcp_fastopen == r2.tcp_fastopen ==> s1.tcp_fastopen == s2.tcp_fastopen,
        r1.zram_enabled == r2.zram_enabled ==> s1.zram_enabled == s2.zram_enabled,
        r1.wifi_powersave == r2.wifi_powersave ==> s1.wifi_powersave == s2.wifi_powersave,
        r1.audio_powersave == r2.audio_powersave ==> s1.audio_powersave == s2.audio_powersave,
        r1.turbo_disabled == r2.turbo_disabled ==> s1.turbo_enabled == s2.turbo_enabled,
        r1.watchdog == r2.watchdog ==> s1.watchdog_enabled == s2.watchdog_enabled,
{
}

} // verus!
