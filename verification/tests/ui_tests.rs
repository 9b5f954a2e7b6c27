use tweakers::czkawka::{CzkawkaAvailability, ResultGroup, ScanMode};
use tweakers::tweaks::TweakSettings;
use tweakers::ui::{
    apply_profile, backup_ready, sudo_password_input, count_files, czkawka_status,
    dialog_text, duplicate_scan_status, governor_index, governor_name, install_failed_status,
    io_scheduler_index, io_scheduler_name, next_pending, rescan_after, scan_route, scan_status,
    scanning_status, settings_from_ui, status_line, sudo_verify_command, thp_index, thp_name,
    PendingAction, ProfileToggles, ScanRoute, UiEvent, UiTweaks,
};

#[test]
fn pending_actions() {
    let p = PendingAction::default();
    assert_eq!(p, PendingAction::NoAction);
    let p = next_pending(p, UiEvent::ApplyTweaksRequested);
    assert_eq!(p, PendingAction::ApplyTweaks);
    assert_eq!(next_pending(p, UiEvent::ResetRequested), PendingAction::ResetDefaults);
    assert_eq!(next_pending(PendingAction::NoAction, UiEvent::ResetRequested), PendingAction::ResetDefaults);
    assert_eq!(next_pending(p, UiEvent::SudoFailed), PendingAction::ApplyTweaks);
    assert_eq!(next_pending(p, UiEvent::SudoSucceeded), PendingAction::NoAction);
    assert_eq!(next_pending(PendingAction::CleanSystem, UiEvent::SudoCancelled), PendingAction::NoAction);
    assert_eq!(next_pending(PendingAction::NoAction, UiEvent::CleanRequested), PendingAction::CleanSystem);
    assert_eq!(dialog_text(UiEvent::ResetRequested), Some("Reset all settings to system defaults"));
    assert_eq!(dialog_text(UiEvent::SudoCancelled), None);
    assert!(rescan_after(PendingAction::CleanSystem));
    assert!(!rescan_after(PendingAction::ApplyTweaks));
}

#[test]
fn selectors_round_trip() {
    for i in 0..3 {
        assert_eq!(governor_index(&governor_name(i)), i);
        assert_eq!(io_scheduler_index(&io_scheduler_name(i)), i);
        assert_eq!(thp_index(&thp_name(i)), i);
    }
    assert_eq!(governor_index("ondemand"), 1);
    assert_eq!(governor_name(7), "schedutil");
    assert_eq!(io_scheduler_name(-1), "mq-deadline");
    assert_eq!(thp_name(0), "always");
    assert_eq!(thp_index("weird"), 1);
}

#[test]
fn apply_keeps_uncontrolled_settings() {
    let mut base = TweakSettings::default();
    base.dirty_ratio = 33;
    base.intel_rc6 = true;
    base.pcie_aspm = "powersave".into();
    let ui = UiTweaks {
        governor_index: 2,
        turbo_enabled: true,
        swappiness: 10,
        vfs_cache_pressure: 50,
        zram_enabled: true,
        io_scheduler_index: 0,
        trim_enabled: true,
        intel_guc: true,
        intel_psr: false,
        intel_fbc: true,
        wifi_powersave: false,
        audio_powersave: true,
        tcp_fastopen: 1,
        tcp_low_latency: true,
        bbr_enabled: true,
        watchdog_enabled: false,
        thp_index: 2,
    };
    let s = settings_from_ui(base, ui);
    assert_eq!(s.cpu_governor, "performance");
    assert_eq!(s.io_scheduler, "none");
    assert_eq!(s.transparent_hugepages, "never");
    assert_eq!(s.swappiness, 10);
    assert_eq!(s.dirty_ratio, 33);
    assert!(s.intel_rc6);
    assert_eq!(s.pcie_aspm, "powersave");
    assert!(s.bbr_enabled);
}

fn toggles() -> ProfileToggles {
    ProfileToggles {
        governor_index: 1,
        turbo_enabled: true,
        wifi_powersave: false,
        audio_powersave: false,
        intel_psr: false,
        intel_fbc: false,
        intel_guc: false,
    }
}

#[test]
fn profiles() {
    let b = apply_profile("battery", toggles());
    assert_eq!((b.governor_index, b.turbo_enabled, b.wifi_powersave, b.intel_guc), (0, false, true, false));
    let p = apply_profile("performance", b);
    assert_eq!((p.governor_index, p.intel_guc, p.intel_psr), (2, true, false));
    let pr = apply_profile("presentation", b);
    assert_eq!((pr.governor_index, pr.turbo_enabled, pr.intel_psr, pr.wifi_powersave), (1, true, false, true));
    assert_eq!(apply_profile("unknown", b), b);
    for name in ["battery", "balanced", "performance", "presentation", "x"] {
        let once = apply_profile(name, toggles());
        assert_eq!(apply_profile(name, once), once);
    }
}

#[test]
fn statuses() {
    let mut a = CzkawkaAvailability::default();
    assert_eq!(czkawka_status(&a), "Not installed — install krokiet for full functionality");
    a.cli_path = Some("/c".into());
    assert_eq!(czkawka_status(&a), "czkawka_cli found ✓ (install krokiet for GUI)");
    a.krokiet_path = Some("/k".into());
    assert_eq!(czkawka_status(&a), "krokiet found ✓");
    assert_eq!(status_line("a\nb\n"), "a | b | ");
    let groups = vec![ResultGroup { files: vec!["/a".into(), "/b".into()] }, ResultGroup { files: vec!["/c".into()] }];
    assert_eq!(count_files(&groups), Some(3));
    assert_eq!(scan_status(2, 3, ScanMode::SameMusic), "Found 2 groups (3 files) | Same Music");
    assert_eq!(duplicate_scan_status(2, 3), "Found 2 duplicate groups, 3 files");
    assert_eq!(scanning_status(ScanMode::BigFiles), "Scanning: Big Files…");
    assert_eq!(install_failed_status("warning\nerror: no network\n"), "Install failed: error: no network");
    assert_eq!(install_failed_status(""), "Install failed: unknown error");
}

#[test]
fn routes_and_backup() {
    let mut a = CzkawkaAvailability::default();
    assert!(matches!(scan_route(&a), ScanRoute::ShowInstallHint));
    a.cli_path = Some("/c".into());
    assert!(matches!(scan_route(&a), ScanRoute::RunCli(ref p) if p == "/c"));
    a.krokiet_path = Some("/k".into());
    assert!(matches!(scan_route(&a), ScanRoute::LaunchKrokiet(ref p) if p == "/k"));
    assert!(backup_ready(&Some("r".into()), &vec!["/f".into()]));
    assert!(!backup_ready(&None, &vec!["/f".into()]));
    assert!(!backup_ready(&Some("r".into()), &vec![]));
}

#[test]
fn password_on_stdin() {
    assert_eq!(sudo_password_input("pw"), "pw\n");
    assert_eq!(sudo_verify_command(), "sudo -S -p '' true 2>&1");
    assert!(!sudo_verify_command().contains("pw"));
}
