use tweakers::sudo_handler::{
    after_step, apply_plan, clean_plan, reset_plan, staging_path, sudo_chmod_command,
    sudo_move_command, sudo_shell_command, temp_clean, CleanSelection, ExecDecision, PlannedStep,
    SudoStep, TempDir,
};
use tweakers::tweaks::{generate_sysctl_config, TweakSettings};

fn describe(p: &PlannedStep) -> (String, bool) {
    match &p.step {
        SudoStep::WriteFile { path, .. } => (format!("write {}", path), p.required),
        SudoStep::Run { command } => (command.clone(), p.required),
    }
}

#[test]
fn apply_steps() {
    let mut s = TweakSettings::default();
    s.cpu_governor = "performance".into();
    s.turbo_enabled = true;
    s.io_scheduler = "kyber".into();
    s.trim_enabled = true;
    s.wifi_powersave = false;
    s.audio_powersave = true;
    s.intel_fbc = true;
    let plan = apply_plan(&s);
    let steps: Vec<(String, bool)> = plan.iter().map(describe).collect();
    assert_eq!(
        steps,
        vec![
            ("write /etc/sysctl.d/99-tweakers.conf".to_string(), true),
            ("sysctl -p /etc/sysctl.d/99-tweakers.conf 2>&1".to_string(), true),
            ("write /etc/modprobe.d/tweakers-i915.conf".to_string(), true),
            ("for cpu in /sys/devices/system/cpu/cpu*/cpufreq/scaling_governor; do echo performance > $cpu 2>/dev/null || true; done".to_string(), false),
            ("echo 0 > /sys/devices/system/cpu/intel_pstate/no_turbo 2>/dev/null || true".to_string(), false),
            ("echo kyber > /sys/block/nvme0n1/queue/scheduler 2>/dev/null || true".to_string(), false),
            ("systemctl enable --now fstrim.timer 2>&1".to_string(), false),
            ("iwconfig wlo1 power off 2>/dev/null || true".to_string(), false),
            ("echo 1 > /sys/module/snd_hda_intel/parameters/power_save 2>/dev/null || true".to_string(), false),
        ]
    );
    match &plan[0].step {
        SudoStep::WriteFile { content, .. } => assert_eq!(content, &generate_sysctl_config(&s)),
        _ => panic!("first step writes the sysctl file"),
    }
    match &plan[2].step {
        SudoStep::WriteFile { content, .. } => assert_eq!(content, "options i915 enable_fbc=1"),
        _ => panic!("third step writes the i915 options"),
    }
}

#[test]
fn apply_steps_without_extras() {
    let s = TweakSettings::default();
    let plan = apply_plan(&s);
    assert_eq!(plan.len(), 7);
    let required: Vec<bool> = plan.iter().map(|p| p.required).collect();
    assert_eq!(required, vec![true, true, false, false, false, false, false]);
    assert_eq!(describe(&plan[2]).0, "echo 1 > /sys/devices/system/cpu/intel_pstate/no_turbo 2>/dev/null || true");
}

#[test]
fn reset_steps() {
    let plan = reset_plan();
    let required: Vec<bool> = plan.iter().map(|p| p.required).collect();
    assert_eq!(required, vec![false, false, true, false, false, false]);
    assert_eq!(describe(&plan[2]).0, "sysctl --system 2>&1");
}

#[test]
fn clean_steps() {
    let all = CleanSelection { apt_cache: true, thumbnails: true, journal: true, temp: true, orphans: true };
    let steps: Vec<(String, bool)> = clean_plan(all, Some("/home/u/.cache/thumbnails")).iter().map(describe).collect();
    assert_eq!(steps.len(), 7);
    assert_eq!(steps[0], ("apt-get clean 2>&1".to_string(), true));
    assert_eq!(steps[2].0, "rm -rf /home/u/.cache/thumbnails/thumb-* 2>/dev/null || true");
    assert_eq!(steps[3].0, "journalctl --vacuum-size=100M 2>&1");
    assert_eq!(clean_plan(all, None).len(), 6);
    let none = CleanSelection { apt_cache: false, thumbnails: false, journal: false, temp: false, orphans: false };
    assert!(clean_plan(none, Some("/x")).is_empty());
}

#[test]
fn shell_commands() {
    assert_eq!(sudo_shell_command("rm -f /x"), "sudo -S -p '' bash -c 'rm -f /x' 2>&1");
    assert_eq!(staging_path(42), "/tmp/tweakers_42");
    assert_eq!(
        sudo_move_command("/tmp/tweakers_42", "/etc/f"),
        "sudo -S -p '' mv /tmp/tweakers_42 /etc/f 2>&1"
    );
    assert_eq!(sudo_chmod_command("/etc/f"), "sudo -S -p '' chmod 644 /etc/f 2>&1");
}

#[test]
fn temp_cleaning_spares_recent_files() {
    let all = CleanSelection { apt_cache: false, thumbnails: false, journal: false, temp: true, orphans: false };
    let steps: Vec<(String, bool)> = clean_plan(all, None).iter().map(describe).collect();
    assert_eq!(
        steps,
        vec![
            ("find /tmp -mindepth 1 -type f -amin +1440 -mmin +1440 -delete 2>/dev/null || true".to_string(), false),
            ("find /var/tmp -mindepth 1 -type f -amin +1440 -mmin +1440 -delete 2>/dev/null || true".to_string(), false),
        ]
    );
    assert_eq!(temp_clean(TempDir::Tmp), steps[0].0);
}

/// Runs a plan with the library's decisions, where `oks[i]` says whether
/// step `i` succeeds; returns the steps run and the step stopped at.
fn run(plan: &Vec<PlannedStep>, oks: &[bool]) -> (Vec<usize>, Option<usize>) {
    let mut ran = vec![];
    let mut i = 0;
    loop {
        ran.push(i);
        match after_step(plan, i, oks[i]) {
            ExecDecision::Next(j) => i = j,
            ExecDecision::Done => return (ran, None),
            ExecDecision::Stop => return (ran, Some(i)),
        }
    }
}

#[test]
fn apply_stops_only_on_config_failures() {
    let mut s = TweakSettings::default();
    s.intel_guc = true;
    let plan = apply_plan(&s);
    assert_eq!(plan.len(), 8);
    let mut oks = vec![true; 8];
    assert_eq!(run(&plan, &oks), ((0..8).collect(), None));
    oks[4] = false;
    oks[7] = false;
    assert_eq!(run(&plan, &oks), ((0..8).collect(), None));
    oks[1] = false;
    assert_eq!(run(&plan, &oks), (vec![0, 1], Some(1)));
    let mut oks = vec![true; 8];
    oks[2] = false;
    assert_eq!(run(&plan, &oks), (vec![0, 1, 2], Some(2)));
}

#[test]
fn clean_stops_only_on_apt_clean() {
    let all = CleanSelection { apt_cache: true, thumbnails: true, journal: true, temp: true, orphans: true };
    let plan = clean_plan(all, Some("/t"));
    let mut oks = vec![true; plan.len()];
    for k in 1..plan.len() {
        oks[k] = false;
    }
    assert_eq!(run(&plan, &oks), ((0..plan.len()).collect(), None));
    oks[0] = false;
    assert_eq!(run(&plan, &oks), (vec![0], Some(0)));
    assert_eq!(after_step(&plan, plan.len() - 1, false), ExecDecision::Done);
}
