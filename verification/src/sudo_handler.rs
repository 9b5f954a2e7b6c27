//! What a privileged operation runs: the plan of file writes and commands
//! for applying tweaks, resetting them and cleaning the system, and the
//! shell commands that run them through `sudo -A`.
use vstd::prelude::*;
use crate::text::{decimal, owned, push_decimal, push_text};
use crate::tweaks::{generate_i915_config, generate_sysctl_config, i915_config, sysctl_config, TweakSettings};

verus! {

/// One privileged action.
#[derive(Clone, Debug)]
pub enum SudoStep {
    /// Install `content` as the root-owned file `path` (mode 644).
    WriteFile { path: String, content: String },
    /// Run `command` in a root shell.
    Run { command: String },
}

/// A step of a plan; when a required step fails the operation stops with
/// its error, while the failure of an optional step is ignored.
#[derive(Clone, Debug)]
pub struct PlannedStep {
    pub step: SudoStep,
    pub required: bool,
}

/// A step as: is it a file write, its path or command, the file content
/// (empty for a command), and whether it is required.
pub open spec fn step_view(p: PlannedStep) -> (bool, Seq<char>, Seq<char>, bool) {
    match p.step {
        SudoStep::WriteFile { path, content } => (true, path@, content@, p.required),
        SudoStep::Run { command } => (false, command@, Seq::empty(), p.required),
    }
}

/// The steps of a plan.
pub open spec fn plan_view(v: Seq<PlannedStep>) -> Seq<(bool, Seq<char>, Seq<char>, bool)> {
    v.map_values(|p: PlannedStep| step_view(p))
}

/// A file write step.
pub open spec fn write_step(path: Seq<char>, content: Seq<char>) -> (bool, Seq<char>, Seq<char>, bool) {
    (true, path, content, true)
}

/// A command step.
pub open spec fn run_step(command: Seq<char>, required: bool) -> (bool, Seq<char>, Seq<char>, bool) {
    (false, command, Seq::empty(), required)
}

/// The command that sets every CPU's governor to `g`.
pub open spec fn governor_command(g: Seq<char>) -> Seq<char> {
    "for cpu in /sys/devices/system/cpu/cpu*/cpufreq/scaling_governor; do echo "@ + g
        + " > $cpu 2>/dev/null || true; done"@
}

/// What applying `s` does: install and load the sysctl file, install the
/// i915 options when there are any, then (ignoring failures) set the
/// governor when one is chosen, turbo boost, the NVMe scheduler, the TRIM
/// timer, Wi-Fi and audio power saving.
pub open spec fn apply_steps(s: TweakSettings) -> Seq<(bool, Seq<char>, Seq<char>, bool)> {
    seq![
        write_step("/etc/sysctl.d/99-tweakers.conf"@, sysctl_config(s)),
        run_step("sysctl -p /etc/sysctl.d/99-tweakers.conf 2>&1"@, true),
    ] + (if i915_config(s).len() > 0 {
        seq![write_step("/etc/modprobe.d/tweakers-i915.conf"@, i915_config(s))]
    } else {
        Seq::empty()
    }) + (if s.cpu_governor@.len() > 0 {
        seq![run_step(governor_command(s.cpu_governor@), false)]
    } else {
        Seq::empty()
    }) + seq![
        run_step(
            "echo "@ + (if s.turbo_enabled {
                "0"@
            } else {
                "1"@
            }) + " > /sys/devices/system/cpu/intel_pstate/no_turbo 2>/dev/null || true"@,
            false,
        ),
        run_step(
            "echo "@ + s.io_scheduler@ + " > /sys/block/nvme0n1/queue/scheduler 2>/dev/null || true"@,
            false,
        ),
        run_step(
            if s.trim_enabled {
                "systemctl enable --now fstrim.timer 2>&1"@
            } else {
                "systemctl disable --now fstrim.timer 2>&1"@
            },
            false,
        ),
        run_step(
            if s.wifi_powersave {
                "iwconfig wlo1 power on 2>/dev/null || true"@
            } else {
                "iwconfig wlo1 power off 2>/dev/null || true"@
            },
            false,
        ),
        run_step(
            "echo "@ + (if s.audio_powersave {
                "1"@
            } else {
                "0"@
            }) + " > /sys/module/snd_hda_intel/parameters/power_save 2>/dev/null || true"@,
            false,
        ),
    ]
}

fn push_run(plan: &mut Vec<PlannedStep>, command: String, required: bool)
    ensures
        plan_view(final(plan)@) == plan_view(old(plan)@).push(run_step(command@, required)),
{
    let ghost before = plan@;
    let p = PlannedStep { step: SudoStep::Run { command }, required };
    plan.push(p);
    assert(plan_view(plan@) =~= plan_view(before).push(step_view(p)));
}

fn push_write(plan: &mut Vec<PlannedStep>, path: &str, content: String)
    ensures
        plan_view(final(plan)@) == plan_view(old(plan)@).push(write_step(path@, content@)),
{
    let ghost before = plan@;
    let p = PlannedStep { step: SudoStep::WriteFile { path: owned(path), content }, required: true };
    plan.push(p);
    assert(plan_view(plan@) =~= plan_view(before).push(step_view(p)));
}

fn echo_into(value: &str, rest: &str) -> (c: String)
    ensures
        c@ == "echo "@ + value@ + rest@,
{
    let mut c = owned("echo ");
    push_text(&mut c, value);
    push_text(&mut c, rest);
    c
}

/// The privileged steps that apply `settings`.
pub fn apply_plan(settings: &TweakSettings) -> (plan: Vec<PlannedStep>)
    ensures
        plan_view(plan@) == apply_steps(*settings),
{
    let mut plan: Vec<PlannedStep> = Vec::new();
    push_write(&mut plan, "/etc/sysctl.d/99-tweakers.conf", generate_sysctl_config(settings));
    push_run(&mut plan, owned("sysctl -p /etc/sysctl.d/99-tweakers.conf 2>&1"), true);
    let i915 = generate_i915_config(settings);
    if !i915.as_str().is_empty() {
        push_write(&mut plan, "/etc/modprobe.d/tweakers-i915.conf", i915);
    }
    if !settings.cpu_governor.as_str().is_empty() {
        let mut c = owned(
            "for cpu in /sys/devices/system/cpu/cpu*/cpufreq/scaling_governor; do echo ",
        );
        push_text(&mut c, settings.cpu_governor.as_str());
        push_text(&mut c, " > $cpu 2>/dev/null || true; done");
        push_run(&mut plan, c, false);
    }
    let turbo = if settings.turbo_enabled {
        "0"
    } else {
        "1"
    };
    push_run(
        &mut plan,
        echo_into(turbo, " > /sys/devices/system/cpu/intel_pstate/no_turbo 2>/dev/null || true"),
        false,
    );
    push_run(
        &mut plan,
        echo_into(
            settings.io_scheduler.as_str(),
            " > /sys/block/nvme0n1/queue/scheduler 2>/dev/null || true",
        ),
        false,
    );
    let fstrim = if settings.trim_enabled {
        "systemctl enable --now fstrim.timer 2>&1"
    } else {
        "systemctl disable --now fstrim.timer 2>&1"
    };
    push_run(&mut plan, owned(fstrim), false);
    let wifi = if settings.wifi_powersave {
        "iwconfig wlo1 power on 2>/dev/null || true"
    } else {
        "iwconfig wlo1 power off 2>/dev/null || true"
    };
    push_run(&mut plan, owned(wifi), false);
    let audio = if settings.audio_powersave {
        "1"
    } else {
        "0"
    };
    push_run(
        &mut plan,
        echo_into(audio, " > /sys/module/snd_hda_intel/parameters/power_save 2>/dev/null || true"),
        false,
    );
    assert(plan_view(plan@) =~= apply_steps(*settings));
    plan
}

/// What resetting does: remove the installed files (ignoring failures),
/// reload the system sysctl defaults, then (ignoring failures) restore the
/// `schedutil` governor, turbo boost and the `mq-deadline` scheduler.
pub open spec fn reset_steps() -> Seq<(bool, Seq<char>, Seq<char>, bool)> {
    seq![
        run_step("rm -f /etc/sysctl.d/99-tweakers.conf"@, false),
        run_step("rm -f /etc/modprobe.d/tweakers-i915.conf"@, false),
        run_step("sysctl --system 2>&1"@, true),
        run_step(
            "for cpu in /sys/devices/system/cpu/cpu*/cpufreq/scaling_governor; do echo schedutil > $cpu 2>/dev/null || true; done"@,
            false,
        ),
        run_step("echo 0 > /sys/devices/system/cpu/intel_pstate/no_turbo 2>/dev/null || true"@, false),
        run_step("echo mq-deadline > /sys/block/nvme0n1/queue/scheduler 2>/dev/null || true"@, false),
    ]
}

/// The privileged steps that reset every setting to the system defaults.
pub fn reset_plan() -> (plan: Vec<PlannedStep>)
    ensures
        plan_view(plan@) == reset_steps(),
{
    let mut plan: Vec<PlannedStep> = Vec::new();
    push_run(&mut plan, owned("rm -f /etc/sysctl.d/99-tweakers.conf"), false);
    push_run(&mut plan, owned("rm -f /etc/modprobe.d/tweakers-i915.conf"), false);
    push_run(&mut plan, owned("sysctl --system 2>&1"), true);
    push_run(
        &mut plan,
        owned(
            "for cpu in /sys/devices/system/cpu/cpu*/cpufreq/scaling_governor; do echo schedutil > $cpu 2>/dev/null || true; done",
        ),
        false,
    );
    push_run(
        &mut plan,
        owned("echo 0 > /sys/devices/system/cpu/intel_pstate/no_turbo 2>/dev/null || true"),
        false,
    );
    push_run(
        &mut plan,
        owned("echo mq-deadline > /sys/block/nvme0n1/queue/scheduler 2>/dev/null || true"),
        false,
    );
    assert(plan_view(plan@) =~= reset_steps());
    plan
}

/// The command that cleans the temporary directory `dir`: it deletes only
/// regular files that nobody has read or modified for more than a day, so
/// the files of running sessions, sockets and directories stay.
pub open spec fn temp_clean_command(dir: Seq<char>) -> Seq<char> {
    "find "@ + dir + " -mindepth 1 -type f -amin +1440 -mmin +1440 -delete 2>/dev/null || true"@
}

/// The temporary directories that cleaning looks at.
#[derive(Clone, Copy, Debug)]
pub enum TempDir {
    Tmp,
    VarTmp,
}

/// The path of a temporary directory.
pub open spec fn temp_dir_path(d: TempDir) -> Seq<char> {
    match d {
        TempDir::Tmp => "/tmp"@,
        TempDir::VarTmp => "/var/tmp"@,
    }
}

/// The command that deletes the stale files of the temporary directory `d`.
pub fn temp_clean(d: TempDir) -> (c: String)
    ensures
        c@ == temp_clean_command(temp_dir_path(d)),
{
    let mut c = owned("find ");
    match d {
        TempDir::Tmp => push_text(&mut c, "/tmp"),
        TempDir::VarTmp => push_text(&mut c, "/var/tmp"),
    }
    push_text(&mut c, " -mindepth 1 -type f -amin +1440 -mmin +1440 -delete 2>/dev/null || true");
    c
}

/// Which cleaning jobs are selected.
#[derive(Clone, Copy, Debug)]
pub struct CleanSelection {
    pub apt_cache: bool,
    pub thumbnails: bool,
    pub journal: bool,
    pub temp: bool,
    pub orphans: bool,
}

/// What cleaning does for `sel`: clean the APT cache (required) and remove
/// unneeded packages; delete thumbnails when their directory exists
/// (`thumb_dir`); vacuum the journal to 100 MB; delete the stale files of
/// `/tmp` and `/var/tmp` (see `temp_clean_command`); purge orphaned package
/// configuration. Only `apt-get clean` is required.
pub open spec fn clean_steps(sel: CleanSelection, thumb_dir: Option<Seq<char>>) -> Seq<(bool, Seq<char>, Seq<char>, bool)> {
    (if sel.apt_cache {
        seq![
            run_step("apt-get clean 2>&1"@, true),
            run_step("apt-get autoremove --purge -y 2>&1"@, false),
        ]
    } else {
        Seq::empty()
    }) + (if sel.thumbnails && thumb_dir is Some {
        seq![run_step("rm -rf "@ + thumb_dir->0 + "/thumb-* 2>/dev/null || true"@, false)]
    } else {
        Seq::empty()
    }) + (if sel.journal {
        seq![run_step("journalctl --vacuum-size=100M 2>&1"@, false)]
    } else {
        Seq::empty()
    }) + (if sel.temp {
        seq![
            run_step(temp_clean_command("/tmp"@), false),
            run_step(temp_clean_command("/var/tmp"@), false),
        ]
    } else {
        Seq::empty()
    }) + (if sel.orphans {
        seq![
            run_step(
                "dpkg -l | grep ^rc | awk '{print $2}' | xargs -r dpkg --purge 2>/dev/null || true"@,
                false,
            ),
        ]
    } else {
        Seq::empty()
    })
}

/// The privileged steps that clean what `sel` selects; `thumb_dir` is the
/// thumbnail cache directory when it exists.
pub fn clean_plan(sel: CleanSelection, thumb_dir: Option<&str>) -> (plan: Vec<PlannedStep>)
    ensures
        plan_view(plan@) == clean_steps(
            sel,
            match thumb_dir {
                Some(d) => Some(d@),
                None => None,
            },
        ),
{
    let mut plan: Vec<PlannedStep> = Vec::new();
    if sel.apt_cache {
        push_run(&mut plan, owned("apt-get clean 2>&1"), true);
        push_run(&mut plan, owned("apt-get autoremove --purge -y 2>&1"), false);
    }
    if sel.thumbnails {
        if let Some(d) = thumb_dir {
            let mut c = owned("rm -rf ");
            push_text(&mut c, d);
            push_text(&mut c, "/thumb-* 2>/dev/null || true");
            push_run(&mut plan, c, false);
        }
    }
    if sel.journal {
        push_run(&mut plan, owned("journalctl --vacuum-size=100M 2>&1"), false);
    }
    if sel.temp {
        push_run(&mut plan, temp_clean(TempDir::Tmp), false);
        push_run(&mut plan, temp_clean(TempDir::VarTmp), false);
    }
    if sel.orphans {
        push_run(
            &mut plan,
            owned(
                "dpkg -l | grep ^rc | awk '{print $2}' | xargs -r dpkg --purge 2>/dev/null || true",
            ),
            false,
        );
    }
    assert(plan_view(plan@) =~= clean_steps(
        sel,
        match thumb_dir {
            Some(d) => Some(d@),
            None => None,
        },
    ));
    plan
}

/// The shell command that runs `command` as root; `sudo` reads the
/// password from standard input, so it never appears in a command line or
/// a file.
pub fn sudo_shell_command(command: &str) -> (c: String)
    ensures
        c@ == "sudo -S -p '' bash -c '"@ + command@ + "' 2>&1"@,
{
    let mut c = owned("sudo -S -p '' bash -c '");
    push_text(&mut c, command);
    push_text(&mut c, "' 2>&1");
    c
}

/// The scratch file a root-owned file is staged in, for process `pid`.
pub fn staging_path(pid: u32) -> (p: String)
    ensures
        p@ == "/tmp/tweakers_"@ + decimal(pid as nat),
{
    let mut p = owned("/tmp/tweakers_");
    push_decimal(&mut p, pid as u64);
    p
}

/// The shell command that moves the staged file into place as root (the
/// password on standard input).
pub fn sudo_move_command(staged: &str, path: &str) -> (c: String)
    ensures
        c@ == "sudo -S -p '' mv "@ + staged@ + " "@ + path@ + " 2>&1"@,
{
    let mut c = owned("sudo -S -p '' mv ");
    push_text(&mut c, staged);
    push_text(&mut c, " ");
    push_text(&mut c, path);
    push_text(&mut c, " 2>&1");
    c
}

/// The shell command that makes an installed file world-readable (the
/// password on standard input).
pub fn sudo_chmod_command(path: &str) -> (c: String)
    ensures
        c@ == "sudo -S -p '' chmod 644 "@ + path@ + " 2>&1"@,
{
    let mut c = owned("sudo -S -p '' chmod 644 ");
    push_text(&mut c, path);
    push_text(&mut c, " 2>&1");
    c
}

} // verus!

verus! {

/// Applying settings stops only when installing or loading the
/// configuration fails: the required steps are exactly the file writes and
/// the `sysctl -p` that loads them, and they all come first.
pub proof fn law_apply_required_steps(s: TweakSettings)
    ensures
        forall|k: int| 0 <= k < apply_steps(s).len() ==> (#[trigger] apply_steps(s)[k]).3 == (k < 2
            + if i915_config(s).len() > 0 {
            1int
        } else {
            0int
        }),
        forall|k: int| 0 <= k < apply_steps(s).len() && (#[trigger] apply_steps(s)[k]).0 ==> apply_steps(s)[k].3,
{
}

/// Resetting stops only when reloading the system defaults fails.
pub proof fn law_reset_required_step()
    ensures
        forall|k: int| 0 <= k < reset_steps().len() ==> ((#[trigger] reset_steps()[k]).3 <==> k == 2),
{
}

} // verus!

verus! {

/// What the runner of a plan does after a step.
#[derive(Clone, Copy, Debug, PartialEq, Eq, Structural)]
pub enum ExecDecision {
    /// Run the step with this index next.
    Next(usize),
    /// Every step has run; the operation succeeded.
    Done,
    /// A required step failed: stop, with that step's error.
    Stop,
}

/// The decision after step `i` of `steps` succeeded (`ok`) or failed: a
/// failed required step stops the run; otherwise the next step runs, or the
/// run is done after the last one.
pub open spec fn step_decision(steps: Seq<(bool, Seq<char>, Seq<char>, bool)>, i: int, ok: bool) -> ExecDecision {
    if !ok && steps[i].3 {
        ExecDecision::Stop
    } else if i + 1 < steps.len() {
        ExecDecision::Next((i + 1) as usize)
    } else {
        ExecDecision::Done
    }
}

/// What to do after step `i` of `plan` ran and succeeded (`ok`) or failed.
pub fn after_step(plan: &Vec<PlannedStep>, i: usize, ok: bool) -> (d: ExecDecision)
    requires
        i < plan.len(),
    ensures
        d == step_decision(plan_view(plan@), i as int, ok),
{
    assert(plan_view(plan@)[i as int] == step_view(plan@[i as int]));
    if !ok && plan[i].required {
        ExecDecision::Stop
    } else if i + 1 < plan.len() {
        ExecDecision::Next(i + 1)
    } else {
        ExecDecision::Done
    }
}

/// Following the decisions from step `i`, given which steps succeed
/// (`oks`): the index of the step the run stops at, or `None` when it
/// completes.
pub open spec fn run_from(steps: Seq<(bool, Seq<char>, Seq<char>, bool)>, oks: Seq<bool>, i: int) -> Option<int>
    decreases steps.len() - i,
{
    if 0 <= i < steps.len() {
        match step_decision(steps, i, oks[i]) {
            ExecDecision::Stop => Some(i),
            ExecDecision::Next(j) => if j == i + 1 {
                run_from(steps, oks, j as int)
            } else {
                None
            },
            ExecDecision::Done => None,
        }
    } else {
        None
    }
}

/// The first step from `i` on that is required and fails.
pub open spec fn first_required_failure(steps: Seq<(bool, Seq<char>, Seq<char>, bool)>, oks: Seq<bool>, i: int) -> Option<int>
    decreases steps.len() - i,
{
    if 0 <= i < steps.len() {
        if steps[i].3 && !oks[i] {
            Some(i)
        } else {
            first_required_failure(steps, oks, i + 1)
        }
    } else {
        None
    }
}

/// The first required failure from `i` on is what its name says.
proof fn lemma_first_required_failure(steps: Seq<(bool, Seq<char>, Seq<char>, bool)>, oks: Seq<bool>, i: int)
    requires
        0 <= i,
    ensures
        match first_required_failure(steps, oks, i) {
            Some(k) => i <= k < steps.len() && steps[k].3 && !oks[k] && forall|j: int|
                i <= j < k ==> !(#[trigger] steps[j].3 && !oks[j]),
            None => forall|j: int| i <= j < steps.len() ==> !(#[trigger] steps[j].3 && !oks[j]),
        },
    decreases steps.len() - i,
{
    if i < steps.len() {
        lemma_first_required_failure(steps, oks, i + 1);
    }
}

/// Running a plan step by step with `after_step` stops exactly at the first
/// required step that fails, and completes when no required step fails:
/// failures of optional steps never stop it.
pub proof fn law_run_stops_at_first_required_failure(steps: Seq<(bool, Seq<char>, Seq<char>, bool)>, oks: Seq<bool>, i: int)
    requires
        0 <= i,
        steps.len() <= usize::MAX,
    ensures
        run_from(steps, oks, i) == first_required_failure(steps, oks, i),
    decreases steps.len() - i,
{
    if i < steps.len() {
        law_run_stops_at_first_required_failure(steps, oks, i + 1);
    }
}

/// Applying settings fails exactly when writing the configuration or
/// loading it with `sysctl -p` fails (the first of those that fails gives
/// the error); failures of the governor, turbo, scheduler, TRIM, Wi-Fi and
/// audio commands are ignored.
pub proof fn law_apply_fails_only_on_config(s: TweakSettings, oks: Seq<bool>)
    requires
        oks.len() == apply_steps(s).len(),
    ensures
        run_from(apply_steps(s), oks, 0) is Some <==> exists|k: int|
            0 <= k < 2 + (if i915_config(s).len() > 0 {
                1int
            } else {
                0int
            }) && !#[trigger] oks[k],
        run_from(apply_steps(s), oks, 0) matches Some(k) ==> apply_steps(s)[k].0 || apply_steps(
            s,
        )[k].1 == "sysctl -p /etc/sysctl.d/99-tweakers.conf 2>&1"@,
{
    let steps = apply_steps(s);
    let n: int = 2 + (if i915_config(s).len() > 0 {
        1int
    } else {
        0int
    });
    law_apply_required_steps(s);
    law_run_stops_at_first_required_failure(steps, oks, 0);
    lemma_first_required_failure(steps, oks, 0);
    if exists|k: int| 0 <= k < n && !#[trigger] oks[k] {
        let k = choose|k: int| 0 <= k < n && !#[trigger] oks[k];
        assert(steps[k].3);
    }
    match first_required_failure(steps, oks, 0) {
        Some(k) => {
            assert(steps[k].3);
            assert(k < n);
            if k >= 2 {
                assert(steps[k].0);
            }
        },
        None => {},
    }
}

/// Cleaning fails exactly when the APT cache is selected and `apt-get
/// clean` fails; every other failure is ignored.
pub proof fn law_clean_fails_only_on_apt(sel: CleanSelection, thumb_dir: Option<Seq<char>>, oks: Seq<bool>)
    requires
        oks.len() == clean_steps(sel, thumb_dir).len(),
    ensures
        run_from(clean_steps(sel, thumb_dir), oks, 0) == (if sel.apt_cache && !oks[0] {
            Some(0int)
        } else {
            None
        }),
{
    let steps = clean_steps(sel, thumb_dir);
    law_run_stops_at_first_required_failure(steps, oks, 0);
    lemma_first_required_failure(steps, oks, 0);
    assert forall|k: int| 0 <= k < steps.len() && (#[trigger] steps[k]).3 implies sel.apt_cache && k
        == 0 by {
        reveal_strlit("apt-get clean 2>&1");
    }
}

} // verus!

verus! {

/// The last five steps of applying `s` follow its settings: turbo boost is
/// on exactly when `no_turbo` gets `0`, the NVMe scheduler is the chosen
/// one, the TRIM timer is enabled exactly when TRIM is on, Wi-Fi power
/// saving is switched `on` exactly when it is enabled, and audio power
/// saving gets `1` exactly when it is enabled. None of them can stop the
/// operation.
pub proof fn law_apply_tail_follows_settings(s: TweakSettings)
    ensures
        apply_steps(s).len() >= 7,
        apply_steps(s)[apply_steps(s).len() - 5] == run_step(
            "echo "@ + (if s.turbo_enabled {
                "0"@
            } else {
                "1"@
            }) + " > /sys/devices/system/cpu/intel_pstate/no_turbo 2>/dev/null || true"@,
            false,
        ),
        apply_steps(s)[apply_steps(s).len() - 4] == run_step(
            "echo "@ + s.io_scheduler@ + " > /sys/block/nvme0n1/queue/scheduler 2>/dev/null || true"@,
            false,
        ),
        apply_steps(s)[apply_steps(s).len() - 3] == run_step(
            "systemctl "@ + (if s.trim_enabled {
                "enable"@
            } else {
                "disable"@
            }) + " --now fstrim.timer 2>&1"@,
            false,
        ),
        apply_steps(s)[apply_steps(s).len() - 2] == run_step(
            "iwconfig wlo1 power "@ + (if s.wifi_powersave {
                "on"@
            } else {
                "off"@
            }) + " 2>/dev/null || true"@,
            false,
        ),
        apply_steps(s)[apply_steps(s).len() - 1] == run_step(
            "echo "@ + (if s.audio_powersave {
                "1"@
            } else {
                "0"@
            }) + " > /sys/module/snd_hda_intel/parameters/power_save 2>/dev/null || true"@,
            false,
        ),
{
    reveal_strlit("systemctl enable --now fstrim.timer 2>&1");
    reveal_strlit("systemctl disable --now fstrim.timer 2>&1");
    reveal_strlit("systemctl ");
    reveal_strlit("enable");
    reveal_strlit("disable");
    reveal_strlit(" --now fstrim.timer 2>&1");
    reveal_strlit("iwconfig wlo1 power on 2>/dev/null || true");
    reveal_strlit("iwconfig wlo1 power off 2>/dev/null || true");
    reveal_strlit("iwconfig wlo1 power ");
    reveal_strlit("on");
    reveal_strlit("off");
    reveal_strlit(" 2>/dev/null || true");
    assert("systemctl enable --now fstrim.timer 2>&1"@ =~= "systemctl "@ + "enable"@ + " --now fstrim.timer 2>&1"@);
    assert("systemctl disable --now fstrim.timer 2>&1"@ =~= "systemctl "@ + "disable"@ + " --now fstrim.timer 2>&1"@);
    assert("iwconfig wlo1 power on 2>/dev/null || true"@ =~= "iwconfig wlo1 power "@ + "on"@ + " 2>/dev/null || true"@);
    assert("iwconfig wlo1 power off 2>/dev/null || true"@ =~= "iwconfig wlo1 power "@ + "off"@ + " 2>/dev/null || true"@);
}

/// Switching Wi-Fi power saving changes exactly one step of the plan, the
/// Wi-Fi one: every other step, and the number of steps, stay the same.
pub proof fn law_wifi_setting_changes_only_wifi_step(s: TweakSettings, t: TweakSettings)
    requires
        t == (TweakSettings { wifi_powersave: !s.wifi_powersave, ..s }),
    ensures
        apply_steps(t).len() == apply_steps(s).len(),
        forall|k: int|
            0 <= k < apply_steps(s).len() && k != apply_steps(s).len() - 2 ==> #[trigger] apply_steps(t)[k]
                == apply_steps(s)[k],
        apply_steps(t)[apply_steps(s).len() - 2] != apply_steps(s)[apply_steps(s).len() - 2],
{
    law_apply_tail_follows_settings(s);
    law_apply_tail_follows_settings(t);
    assert(sysctl_config(t) == sysctl_config(s));
    assert(i915_config(t) == i915_config(s));
    reveal_strlit("on");
    reveal_strlit("off");
    let a = "iwconfig wlo1 power "@ + "on"@ + " 2>/dev/null || true"@;
    let b = "iwconfig wlo1 power "@ + "off"@ + " 2>/dev/null || true"@;
    assert(a.len() != b.len());
}

} // verus!
