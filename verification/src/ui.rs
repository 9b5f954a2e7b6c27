//! The decisions behind the user interface: which action waits for the
//! password, how the selectors map to setting names, the quick profiles,
//! how a scan request is routed, and the status messages shown.
use vstd::prelude::*;
use crate::czkawka::{mode_label, CzkawkaAvailability, ResultGroup, ScanMode};
use crate::text::{
    chars_of, decimal, is_text, lines, lines_vec, owned, push_decimal, push_text, replace_char,
    replace_char_vec, string_of, vec_views,
};
use crate::tweaks::TweakSettings;

verus! {

/// The privileged operation waiting for the password.
#[derive(Clone, Copy, Debug, PartialEq, Eq, Structural)]
pub enum PendingAction {
    NoAction,
    ApplyTweaks,
    ResetDefaults,
    CleanSystem,
}

impl Default for PendingAction {
    fn default() -> (p: Self)
        ensures
            p == PendingAction::NoAction,
    {
        PendingAction::NoAction
    }
}

/// What the user does around the password dialog.
#[derive(Clone, Copy, Debug, PartialEq, Eq, Structural)]
pub enum UiEvent {
    /// "Apply tweaks" was pressed.
    ApplyTweaksRequested,
    /// "Reset to defaults" was pressed.
    ResetRequested,
    /// "Clean selected" was pressed.
    CleanRequested,
    /// The password was accepted and the pending operation succeeded.
    SudoSucceeded,
    /// The password was refused or the operation failed.
    SudoFailed,
    /// The dialog was cancelled.
    SudoCancelled,
}

/// The pending operation after `e`: each request makes its operation the
/// pending one; success or cancelling clears it; failure keeps it.
pub open spec fn pending_after(p: PendingAction, e: UiEvent) -> PendingAction {
    match e {
        UiEvent::ApplyTweaksRequested => PendingAction::ApplyTweaks,
        UiEvent::ResetRequested => PendingAction::ResetDefaults,
        UiEvent::CleanRequested => PendingAction::CleanSystem,
        UiEvent::SudoSucceeded => PendingAction::NoAction,
        UiEvent::SudoFailed => p,
        UiEvent::SudoCancelled => PendingAction::NoAction,
    }
}

/// The pending operation after the user's action `e`.
pub fn next_pending(p: PendingAction, e: UiEvent) -> (r: PendingAction)
    ensures
        r == pending_after(p, e),
{
    match e {
        UiEvent::ApplyTweaksRequested => PendingAction::ApplyTweaks,
        UiEvent::ResetRequested => PendingAction::ResetDefaults,
        UiEvent::CleanRequested => PendingAction::CleanSystem,
        UiEvent::SudoSucceeded => PendingAction::NoAction,
        UiEvent::SudoFailed => p,
        UiEvent::SudoCancelled => PendingAction::NoAction,
    }
}

/// The description shown in the password dialog that `e` opens.
pub fn dialog_text(e: UiEvent) -> (r: Option<&'static str>)
    ensures
        match e {
            UiEvent::ApplyTweaksRequested => r is Some && r->0@
                == "Apply system tweaks and optimizations"@,
            UiEvent::ResetRequested => r is Some && r->0@ == "Reset all settings to system defaults"@,
            UiEvent::CleanRequested => r is Some && r->0@ == "Clean selected system files and caches"@,
            _ => r is None,
        },
{
    match e {
        UiEvent::ApplyTweaksRequested => Some("Apply system tweaks and optimizations"),
        UiEvent::ResetRequested => Some("Reset all settings to system defaults"),
        UiEvent::CleanRequested => Some("Clean selected system files and caches"),
        _ => None,
    }
}

/// Whether the cleaner sizes are scanned again after `p` succeeded.
pub fn rescan_after(p: PendingAction) -> (r: bool)
    ensures
        r == (p == PendingAction::CleanSystem),
{
    p == PendingAction::CleanSystem
}

/// The selector position of a governor; unknown names select `schedutil`.
pub open spec fn governor_pos(name: Seq<char>) -> i32 {
    if name == "powersave"@ {
        0
    } else if name == "schedutil"@ {
        1
    } else if name == "performance"@ {
        2
    } else {
        1
    }
}

/// The governor at a selector position; others select `schedutil`.
pub open spec fn governor_at(i: i32) -> Seq<char> {
    if i == 0 {
        "powersave"@
    } else if i == 2 {
        "performance"@
    } else {
        "schedutil"@
    }
}

/// The selector position of an I/O scheduler; unknown ones select `mq-deadline`.
pub open spec fn scheduler_pos(name: Seq<char>) -> i32 {
    if name == "none"@ {
        0
    } else if name == "mq-deadline"@ {
        1
    } else if name == "kyber"@ {
        2
    } else {
        1
    }
}

/// The I/O scheduler at a selector position; others select `mq-deadline`.
pub open spec fn scheduler_at(i: i32) -> Seq<char> {
    if i == 0 {
        "none"@
    } else if i == 2 {
        "kyber"@
    } else {
        "mq-deadline"@
    }
}

/// The selector position of a huge page mode; unknown ones select `madvise`.
pub open spec fn thp_pos(name: Seq<char>) -> i32 {
    if name == "always"@ {
        0
    } else if name == "madvise"@ {
        1
    } else if name == "never"@ {
        2
    } else {
        1
    }
}

/// The huge page mode at a selector position; others select `madvise`.
pub open spec fn thp_at(i: i32) -> Seq<char> {
    if i == 0 {
        "always"@
    } else if i == 2 {
        "never"@
    } else {
        "madvise"@
    }
}

/// The governor selector position for `name`.
pub fn governor_index(name: &str) -> (i: i32)
    ensures
        i == governor_pos(name@),
{
    let v = chars_of(name);
    if is_text(&v, "powersave") {
        0
    } else if is_text(&v, "schedutil") {
        1
    } else if is_text(&v, "performance") {
        2
    } else {
        1
    }
}

/// The governor chosen at selector position `i`.
pub fn governor_name(i: i32) -> (name: String)
    ensures
        name@ == governor_at(i),
{
    if i == 0 {
        owned("powersave")
    } else if i == 2 {
        owned("performance")
    } else {
        owned("schedutil")
    }
}

/// The scheduler selector position for `name`.
pub fn io_scheduler_index(name: &str) -> (i: i32)
    ensures
        i == scheduler_pos(name@),
{
    let v = chars_of(name);
    if is_text(&v, "none") {
        0
    } else if is_text(&v, "mq-deadline") {
        1
    } else if is_text(&v, "kyber") {
        2
    } else {
        1
    }
}

/// The scheduler chosen at selector position `i`.
pub fn io_scheduler_name(i: i32) -> (name: String)
    ensures
        name@ == scheduler_at(i),
{
    if i == 0 {
        owned("none")
    } else if i == 2 {
        owned("kyber")
    } else {
        owned("mq-deadline")
    }
}

/// The huge page selector position for `name`.
pub fn thp_index(name: &str) -> (i: i32)
    ensures
        i == thp_pos(name@),
{
    let v = chars_of(name);
    if is_text(&v, "always") {
        0
    } else if is_text(&v, "madvise") {
        1
    } else if is_text(&v, "never") {
        2
    } else {
        1
    }
}

/// The huge page mode chosen at selector position `i`.
pub fn thp_name(i: i32) -> (name: String)
    ensures
        name@ == thp_at(i),
{
    if i == 0 {
        owned("always")
    } else if i == 2 {
        owned("never")
    } else {
        owned("madvise")
    }
}

/// The values of the tweak controls when "Apply" is pressed (the sliders
/// already converted to whole numbers).
#[derive(Clone, Copy, Debug)]
pub struct UiTweaks {
    pub governor_index: i32,
    pub turbo_enabled: bool,
    pub swappiness: u32,
    pub vfs_cache_pressure: u32,
    pub zram_enabled: bool,
    pub io_scheduler_index: i32,
    pub trim_enabled: bool,
    pub intel_guc: bool,
    pub intel_psr: bool,
    pub intel_fbc: bool,
    pub wifi_powersave: bool,
    pub audio_powersave: bool,
    pub tcp_fastopen: u32,
    pub tcp_low_latency: bool,
    pub bbr_enabled: bool,
    pub watchdog_enabled: bool,
    pub thp_index: i32,
}

/// `s` is `base` with the controls of `ui` applied: the settings that have
/// no control keep their values.
pub open spec fn settings_with_ui(s: TweakSettings, base: TweakSettings, ui: UiTweaks) -> bool {
    &&& s.cpu_governor@ == governor_at(ui.governor_index)
    &&& s.turbo_enabled == ui.turbo_enabled
    &&& s.swappiness == ui.swappiness
    &&& s.vfs_cache_pressure == ui.vfs_cache_pressure
    &&& s.dirty_ratio == base.dirty_ratio
    &&& s.dirty_background_ratio == base.dirty_background_ratio
    &&& s.zram_enabled == ui.zram_enabled
    &&& s.io_scheduler@ == scheduler_at(ui.io_scheduler_index)
    &&& s.trim_enabled == ui.trim_enabled
    &&& s.noatime == base.noatime
    &&& s.intel_guc == ui.intel_guc
    &&& s.intel_psr == ui.intel_psr
    &&& s.intel_fbc == ui.intel_fbc
    &&& s.intel_rc6 == base.intel_rc6
    &&& s.wifi_powersave == ui.wifi_powersave
    &&& s.audio_powersave == ui.audio_powersave
    &&& s.pcie_aspm == base.pcie_aspm
    &&& s.tcp_fastopen == ui.tcp_fastopen
    &&& s.tcp_low_latency == ui.tcp_low_latency
    &&& s.bbr_enabled == ui.bbr_enabled
    &&& s.watchdog_enabled == ui.watchdog_enabled
    &&& s.transparent_hugepages@ == thp_at(ui.thp_index)
}

/// The settings to apply: `base` updated with the controls of `ui`.
pub fn settings_from_ui(base: TweakSettings, ui: UiTweaks) -> (s: TweakSettings)
    ensures
        settings_with_ui(s, base, ui),
{
    let mut s = base;
    s.cpu_governor = governor_name(ui.governor_index);
    s.turbo_enabled = ui.turbo_enabled;
    s.swappiness = ui.swappiness;
    s.vfs_cache_pressure = ui.vfs_cache_pressure;
    s.zram_enabled = ui.zram_enabled;
    s.io_scheduler = io_scheduler_name(ui.io_scheduler_index);
    s.trim_enabled = ui.trim_enabled;
    s.intel_guc = ui.intel_guc;
    s.intel_psr = ui.intel_psr;
    s.intel_fbc = ui.intel_fbc;
    s.wifi_powersave = ui.wifi_powersave;
    s.audio_powersave = ui.audio_powersave;
    s.tcp_fastopen = ui.tcp_fastopen;
    s.tcp_low_latency = ui.tcp_low_latency;
    s.bbr_enabled = ui.bbr_enabled;
    s.watchdog_enabled = ui.watchdog_enabled;
    s.transparent_hugepages = thp_name(ui.thp_index);
    s
}

/// The controls that the quick profiles set.
#[derive(Clone, Copy, Debug, PartialEq, Eq, Structural)]
pub struct ProfileToggles {
    pub governor_index: i32,
    pub turbo_enabled: bool,
    pub wifi_powersave: bool,
    pub audio_powersave: bool,
    pub intel_psr: bool,
    pub intel_fbc: bool,
    pub intel_guc: bool,
}

/// The controls after choosing `profile`: battery, balanced, performance
/// and presentation each set some controls; any other name changes nothing.
pub open spec fn profile_applied(profile: Seq<char>, t: ProfileToggles) -> ProfileToggles {
    if profile == "battery"@ {
        ProfileToggles {
            governor_index: 0,
            turbo_enabled: false,
            wifi_powersave: true,
            audio_powersave: true,
            intel_psr: true,
            intel_fbc: true,
            ..t
        }
    } else if profile == "balanced"@ {
        ProfileToggles {
            governor_index: 1,
            turbo_enabled: true,
            wifi_powersave: false,
            audio_powersave: true,
            intel_psr: true,
            intel_fbc: true,
            ..t
        }
    } else if profile == "performance"@ {
        ProfileToggles {
            governor_index: 2,
            turbo_enabled: true,
            wifi_powersave: false,
            audio_powersave: false,
            intel_psr: false,
            intel_fbc: false,
            intel_guc: true,
        }
    } else if profile == "presentation"@ {
        ProfileToggles { governor_index: 1, turbo_enabled: true, intel_psr: false, ..t }
    } else {
        t
    }
}

/// The controls after choosing the quick profile `profile`.
pub fn apply_profile(profile: &str, t: ProfileToggles) -> (r: ProfileToggles)
    ensures
        r == profile_applied(profile@, t),
{
    let p = chars_of(profile);
    let mut r = t;
    if is_text(&p, "battery") {
        r.governor_index = 0;
        r.turbo_enabled = false;
        r.wifi_powersave = true;
        r.audio_powersave = true;
        r.intel_psr = true;
        r.intel_fbc = true;
    } else if is_text(&p, "balanced") {
        r.governor_index = 1;
        r.turbo_enabled = true;
        r.wifi_powersave = false;
        r.audio_powersave = true;
        r.intel_psr = true;
        r.intel_fbc = true;
    } else if is_text(&p, "performance") {
        r.governor_index = 2;
        r.turbo_enabled = true;
        r.wifi_powersave = false;
        r.audio_powersave = false;
        r.intel_psr = false;
        r.intel_fbc = false;
        r.intel_guc = true;
    } else if is_text(&p, "presentation") {
        r.governor_index = 1;
        r.turbo_enabled = true;
        r.intel_psr = false;
    }
    r
}

/// The czkawka status line shown at start-up.
pub open spec fn tool_status(krokiet: bool, cli: bool) -> Seq<char> {
    if krokiet {
        "krokiet found ✓"@
    } else if cli {
        "czkawka_cli found ✓ (install krokiet for GUI)"@
    } else {
        "Not installed — install krokiet for full functionality"@
    }
}

/// The czkawka status line for the tools found.
pub fn czkawka_status(avail: &CzkawkaAvailability) -> (s: String)
    ensures
        s@ == tool_status(avail.krokiet_path is Some, avail.cli_path is Some),
{
    if avail.krokiet_path.is_some() {
        owned("krokiet found ✓")
    } else if avail.cli_path.is_some() {
        owned("czkawka_cli found ✓ (install krokiet for GUI)")
    } else {
        owned("Not installed — install krokiet for full functionality")
    }
}

/// A multi-line hint on the one-line status bar: line breaks become ` | `.
pub fn status_line(hint: &str) -> (s: String)
    ensures
        s@ == replace_char(hint@, '\n', " | "@),
{
    replace_char_vec(&chars_of(hint), '\n', " | ")
}

/// The number of files over all groups.
pub open spec fn files_in(groups: Seq<ResultGroup>) -> nat
    decreases groups.len(),
{
    if groups.len() == 0 {
        0
    } else {
        files_in(groups.drop_last()) + groups.last().files@.len()
    }
}

/// The number of files over all groups, when it fits in a `usize`.
pub fn count_files(groups: &Vec<ResultGroup>) -> (n: Option<usize>)
    ensures
        match n {
            Some(k) => k as nat == files_in(groups@),
            None => files_in(groups@) > usize::MAX,
        },
{
    let mut total: usize = 0;
    let mut i: usize = 0;
    assert(groups@.take(0) =~= Seq::<ResultGroup>::empty());
    while i < groups.len()
        invariant
            i <= groups.len(),
            total as nat == files_in(groups@.take(i as int)),
        decreases groups.len() - i,
    {
        assert(groups@.take(i + 1).drop_last() =~= groups@.take(i as int));
        let k = groups[i].files.len();
        if total > usize::MAX - k {
            proof {
                lemma_files_in_prefix(groups@, i + 1);
            }
            return None;
        }
        total = total + k;
        i += 1;
    }
    assert(groups@.take(groups.len() as int) =~= groups@);
    Some(total)
}

/// A prefix of the groups holds no more files than all of them.
pub proof fn lemma_files_in_prefix(g: Seq<ResultGroup>, k: int)
    requires
        0 <= k <= g.len(),
    ensures
        files_in(g.take(k)) <= files_in(g),
    decreases g.len(),
{
    if k < g.len() {
        assert(g.drop_last().take(k) =~= g.take(k));
        lemma_files_in_prefix(g.drop_last(), k);
    } else {
        assert(g.take(k) =~= g);
    }
}

/// The status after a scan in mode `mode` found `count` groups holding
/// `files` files.
pub fn scan_status(count: usize, files: usize, mode: ScanMode) -> (s: String)
    ensures
        s@ == "Found "@ + decimal(count as nat) + " groups ("@ + decimal(files as nat) + " files) | "@
            + mode_label(mode),
{
    let mut s = owned("Found ");
    push_decimal(&mut s, count as u64);
    push_text(&mut s, " groups (");
    push_decimal(&mut s, files as u64);
    push_text(&mut s, " files) | ");
    push_text(&mut s, mode.label());
    s
}

/// The status after a duplicate scan found `count` groups holding `files`
/// files.
pub fn duplicate_scan_status(count: usize, files: usize) -> (s: String)
    ensures
        s@ == "Found "@ + decimal(count as nat) + " duplicate groups, "@ + decimal(files as nat)
            + " files"@,
{
    let mut s = owned("Found ");
    push_decimal(&mut s, count as u64);
    push_text(&mut s, " duplicate groups, ");
    push_decimal(&mut s, files as u64);
    push_text(&mut s, " files");
    s
}

/// The status while a scan runs.
pub fn scanning_status(mode: ScanMode) -> (s: String)
    ensures
        s@ == "Scanning: "@ + mode_label(mode) + "…"@,
{
    let mut s = owned("Scanning: ");
    push_text(&mut s, mode.label());
    push_text(&mut s, "…");
    s
}

/// The status after `cargo install krokiet` failed with error output
/// `stderr`: its last line, or `unknown error`.
pub fn install_failed_status(stderr: &str) -> (s: String)
    ensures
        s@ == "Install failed: "@ + if lines(stderr@).len() > 0 {
            lines(stderr@).last()
        } else {
            "unknown error"@
        },
{
    let ls = lines_vec(&chars_of(stderr));
    let mut s = owned("Install failed: ");
    if ls.len() > 0 {
        assert(vec_views(ls@).last() == ls@[ls.len() - 1]@);
        let last = string_of(&ls[ls.len() - 1]);
        push_text(&mut s, last.as_str());
    } else {
        push_text(&mut s, "unknown error");
    }
    s
}

/// How a scan request is served.
#[derive(Clone, Debug)]
pub enum ScanRoute {
    /// Open the krokiet window at this path.
    LaunchKrokiet(String),
    /// Run `czkawka_cli` at this path.
    RunCli(String),
    /// Show the install hint.
    ShowInstallHint,
}

/// The route of a scan request: krokiet when present, else the
/// command-line tool, else the install hint.
pub fn scan_route(avail: &CzkawkaAvailability) -> (r: ScanRoute)
    ensures
        match r {
            ScanRoute::LaunchKrokiet(p) => avail.krokiet_path == Some(p),
            ScanRoute::RunCli(p) => avail.krokiet_path is None && avail.cli_path == Some(p),
            ScanRoute::ShowInstallHint => avail.krokiet_path is None && avail.cli_path is None,
        },
{
    match &avail.krokiet_path {
        Some(k) => ScanRoute::LaunchKrokiet(k.clone()),
        None => match &avail.cli_path {
            Some(c) => ScanRoute::RunCli(c.clone()),
            None => ScanRoute::ShowInstallHint,
        },
    }
}

/// Whether a backup can start: a remote is configured and files are queued.
pub fn backup_ready(remote: &Option<String>, files: &Vec<String>) -> (r: bool)
    ensures
        r == (remote is Some && files@.len() > 0),
{
    remote.is_some() && files.len() > 0
}

/// What is written to the standard input of a `sudo -S` command: the
/// password and a line break. It goes to the process through a pipe only.
pub fn sudo_password_input(password: &str) -> (s: String)
    ensures
        s@ == password@ + "\n"@,
{
    let mut s = owned(password);
    push_text(&mut s, "\n");
    s
}

/// The command that checks the password (read from standard input) without
/// running anything.
pub fn sudo_verify_command() -> (c: String)
    ensures
        c@ == "sudo -S -p '' true 2>&1"@,
{
    owned("sudo -S -p '' true 2>&1")
}

} // verus!

verus! {

/// The signature of a text: length, first two and last characters.
pub open spec fn text_signature(s: Seq<char>) -> (nat, char, char, char) {
    (s.len(), s[0], s[1], s.last())
}

/// Each selector position shows the value it selects: for positions 0, 1
/// and 2, the name chosen at a position is placed back at that position.
pub proof fn law_selector_positions_round_trip(i: i32)
    requires
        0 <= i <= 2,
    ensures
        governor_pos(governor_at(i)) == i,
        scheduler_pos(scheduler_at(i)) == i,
        thp_pos(thp_at(i)) == i,
{
    reveal_strlit("powersave");
    reveal_strlit("schedutil");
    reveal_strlit("performance");
    reveal_strlit("none");
    reveal_strlit("mq-deadline");
    reveal_strlit("kyber");
    reveal_strlit("always");
    reveal_strlit("madvise");
    reveal_strlit("never");
    assert(text_signature("powersave"@) != text_signature("schedutil"@));
    assert(text_signature("powersave"@) != text_signature("performance"@));
    assert(text_signature("schedutil"@) != text_signature("performance"@));
    assert(text_signature("none"@) != text_signature("mq-deadline"@));
    assert(text_signature("none"@) != text_signature("kyber"@));
    assert(text_signature("mq-deadline"@) != text_signature("kyber"@));
    assert(text_signature("always"@) != text_signature("madvise"@));
    assert(text_signature("always"@) != text_signature("never"@));
    assert(text_signature("madvise"@) != text_signature("never"@));
}

/// A value the selectors know comes back unchanged from its position, and
/// any other value comes back as the default.
pub proof fn law_selector_names_round_trip(name: Seq<char>)
    ensures
        governor_at(governor_pos(name)) == (if name == "powersave"@ || name == "performance"@ {
            name
        } else {
            "schedutil"@
        }),
        scheduler_at(scheduler_pos(name)) == (if name == "none"@ || name == "kyber"@ {
            name
        } else {
            "mq-deadline"@
        }),
        thp_at(thp_pos(name)) == (if name == "always"@ || name == "never"@ {
            name
        } else {
            "madvise"@
        }),
{
}

/// Choosing the same quick profile twice sets the controls as choosing it
/// once does.
pub proof fn law_profile_idempotent(profile: Seq<char>, t: ProfileToggles)
    ensures
        profile_applied(profile, profile_applied(profile, t)) == profile_applied(profile, t),
{
}

/// A successful or cancelled password dialog leaves nothing pending; a
/// failed one keeps the operation pending; each request makes its own
/// operation pending, whatever was pending before.
pub proof fn law_pending_cleared(p: PendingAction)
    ensures
        pending_after(p, UiEvent::SudoSucceeded) == PendingAction::NoAction,
        pending_after(p, UiEvent::SudoCancelled) == PendingAction::NoAction,
        pending_after(p, UiEvent::SudoFailed) == p,
        pending_after(p, UiEvent::ApplyTweaksRequested) == PendingAction::ApplyTweaks,
        pending_after(p, UiEvent::ResetRequested) == PendingAction::ResetDefaults,
        pending_after(p, UiEvent::CleanRequested) == PendingAction::CleanSystem,
{
}

/// The quick profiles select governors by name: battery selects
/// `powersave`, balanced and presentation select `schedutil`, performance
/// selects `performance`. Balanced also turns turbo on, Wi-Fi power saving
/// off, and audio power saving, PSR and FBC on, leaving GuC as it was;
/// battery turns turbo off; performance turns turbo and GuC on and every
/// power saving off; presentation turns turbo on and PSR off.
pub proof fn law_profiles_choose_governors(t: ProfileToggles)
    ensures
        governor_at(profile_applied("battery"@, t).governor_index) == "powersave"@,
        governor_at(profile_applied("balanced"@, t).governor_index) == "schedutil"@,
        governor_at(profile_applied("performance"@, t).governor_index) == "performance"@,
        governor_at(profile_applied("presentation"@, t).governor_index) == "schedutil"@,
        !profile_applied("battery"@, t).turbo_enabled,
        profile_applied("balanced"@, t).turbo_enabled,
        !profile_applied("balanced"@, t).wifi_powersave,
        profile_applied("balanced"@, t).audio_powersave,
        profile_applied("balanced"@, t).intel_psr,
        profile_applied("balanced"@, t).intel_fbc,
        profile_applied("balanced"@, t).intel_guc == t.intel_guc,
        profile_applied("performance"@, t).turbo_enabled,
        profile_applied("performance"@, t).intel_guc,
        !profile_applied("performance"@, t).wifi_powersave,
        !profile_applied("performance"@, t).audio_powersave,
        !profile_applied("performance"@, t).intel_psr,
        !profile_applied("performance"@, t).intel_fbc,
        profile_applied("presentation"@, t).turbo_enabled,
        !profile_applied("presentation"@, t).intel_psr,
{
    reveal_strlit("battery");
    reveal_strlit("balanced");
    reveal_strlit("performance");
    reveal_strlit("presentation");
    assert("battery"@ != "balanced"@) by {
        assert("battery"@[1] != "balanced"@[1] || "battery"@.len() != "balanced"@.len());
    }
    assert("balanced"@ != "performance"@) by {
        assert("balanced"@[0] != "performance"@[0]);
    }
    assert("battery"@ != "performance"@) by {
        assert("battery"@[0] != "performance"@[0]);
    }
    assert("battery"@ != "presentation"@) by {
        assert("battery"@[0] != "presentation"@[0]);
    }
    assert("balanced"@ != "presentation"@) by {
        assert("balanced"@[0] != "presentation"@[0]);
    }
    assert("performance"@ != "presentation"@) by {
        assert("performance"@[1] != "presentation"@[1]);
    }
}

} // verus!
