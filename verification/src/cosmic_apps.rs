//! The COSMIC companion apps: where to look for them, and what to tell the
//! user when one is missing.
use vstd::prelude::*;
use crate::czkawka::{join_path, path_join};
use crate::text::{owned, string_views};

verus! {

/// Where the three COSMIC companion apps were found.
#[derive(Clone, Debug)]
pub struct CosmicAppsAvailability {
    pub cosmic_tweaks_path: Option<String>,
    pub fan_control_path: Option<String>,
    pub color_picker_path: Option<String>,
}

impl Default for CosmicAppsAvailability {
    fn default() -> (a: Self)
        ensures
            a.cosmic_tweaks_path is None,
            a.fan_control_path is None,
            a.color_picker_path is None,
    {
        CosmicAppsAvailability { cosmic_tweaks_path: None, fan_control_path: None, color_picker_path: None }
    }
}

/// The binary names of cosmic-tweaks.
pub open spec fn cosmic_tweaks_names() -> Seq<Seq<char>> {
    seq!["cosmic-tweaks"@, "cosmic_tweaks"@]
}

/// The binary names of fan-control.
pub open spec fn fan_control_names() -> Seq<Seq<char>> {
    seq!["fan-control"@, "fan_control"@]
}

/// The binary names of the color picker.
pub open spec fn color_picker_names() -> Seq<Seq<char>> {
    seq!["cosmic-color-picker"@, "cosmic_color_picker"@, "color-picker"@]
}

/// The binary names of cosmic-tweaks.
pub fn cosmic_tweaks_bins() -> (r: Vec<String>)
    ensures
        string_views(r@) == cosmic_tweaks_names(),
{
    let v = vec![owned("cosmic-tweaks"), owned("cosmic_tweaks")];
    assert(string_views(v@) =~= cosmic_tweaks_names());
    v
}

/// The binary names of fan-control.
pub fn fan_control_bins() -> (r: Vec<String>)
    ensures
        string_views(r@) == fan_control_names(),
{
    let v = vec![owned("fan-control"), owned("fan_control")];
    assert(string_views(v@) =~= fan_control_names());
    v
}

/// The binary names of the color picker.
pub fn color_picker_bins() -> (r: Vec<String>)
    ensures
        string_views(r@) == color_picker_names(),
{
    let v = vec![owned("cosmic-color-picker"), owned("cosmic_color_picker"), owned("color-picker")];
    assert(string_views(v@) =~= color_picker_names());
    v
}

/// One step of the search for a binary.
#[derive(Clone, Debug)]
pub enum Probe {
    /// Look the name up on `$PATH`.
    OnPath(String),
    /// Check that this path is a file.
    File(String),
}

/// A probe as a flag (`true`: a path lookup) and its text.
pub open spec fn probe_view(p: Probe) -> (bool, Seq<char>) {
    match p {
        Probe::OnPath(n) => (true, n@),
        Probe::File(f) => (false, f@),
    }
}

/// The directories searched after `$PATH`: the system directories, then the
/// user's cargo and local ones when the home directory is known.
pub open spec fn extra_dirs(home: Option<Seq<char>>) -> Seq<Seq<char>> {
    match home {
        Some(h) => seq![
            "/usr/local/bin"@,
            "/usr/bin"@,
            path_join(h, ".cargo/bin"@),
            path_join(h, ".local/bin"@),
        ],
        None => seq!["/usr/local/bin"@, "/usr/bin"@],
    }
}

/// The file probes for `names` in the directories `dirs`: directory by
/// directory, each name in order.
pub open spec fn file_probes(dirs: Seq<Seq<char>>, names: Seq<Seq<char>>) -> Seq<(bool, Seq<char>)>
    decreases dirs.len(),
{
    if dirs.len() == 0 {
        Seq::empty()
    } else {
        file_probes(dirs.drop_last(), names) + names.map_values(
            |n: Seq<char>| (false, path_join(dirs.last(), n)),
        )
    }
}

/// The whole search for one of `names`: each name on `$PATH`, then each
/// extra directory.
pub open spec fn search_order(names: Seq<Seq<char>>, home: Option<Seq<char>>) -> Seq<(bool, Seq<char>)> {
    names.map_values(|n: Seq<char>| (true, n)) + file_probes(extra_dirs(home), names)
}

fn push_file_probes(plan: &mut Vec<Probe>, dir: &str, names: &Vec<String>)
    ensures
        final(plan)@.map_values(|p: Probe| probe_view(p)) == old(plan)@.map_values(
            |p: Probe| probe_view(p),
        ) + string_views(names@).map_values(|n: Seq<char>| (false, path_join(dir@, n))),
{
    let ghost start = plan@.map_values(|p: Probe| probe_view(p));
    let ghost ns = string_views(names@);
    let mut i: usize = 0;
    assert(ns.take(0).map_values(|n: Seq<char>| (false, path_join(dir@, n))) =~= Seq::<
        (bool, Seq<char>),
    >::empty());
    assert(start + Seq::<(bool, Seq<char>)>::empty() =~= start);
    while i < names.len()
        invariant
            i <= names.len(),
            ns == string_views(names@),
            plan@.map_values(|p: Probe| probe_view(p)) == start + ns.take(i as int).map_values(
                |n: Seq<char>| (false, path_join(dir@, n)),
            ),
        decreases names.len() - i,
    {
        let ghost before = plan@;
        plan.push(Probe::File(join_path(dir, names[i].as_str())));
        assert(plan@.map_values(|p: Probe| probe_view(p)) =~= before.map_values(
            |p: Probe| probe_view(p),
        ).push(probe_view(plan@.last())));
        assert(ns.take(i + 1).map_values(|n: Seq<char>| (false, path_join(dir@, n))) =~= ns.take(
            i as int,
        ).map_values(|n: Seq<char>| (false, path_join(dir@, n))).push(
            (false, path_join(dir@, ns[i as int])),
        ));
        i += 1;
    }
    assert(ns.take(names.len() as int) =~= ns);
}

/// The probes, in order, that find one of `names`: the first probe that
/// succeeds gives the binary's location.
pub fn search_plan(names: &Vec<String>, home: Option<&str>) -> (plan: Vec<Probe>)
    ensures
        plan@.map_values(|p: Probe| probe_view(p)) == search_order(
            string_views(names@),
            match home {
                Some(h) => Some(h@),
                None => None,
            },
        ),
{
    let ghost ns = string_views(names@);
    let mut plan: Vec<Probe> = Vec::new();
    let mut i: usize = 0;
    while i < names.len()
        invariant
            i <= names.len(),
            ns == string_views(names@),
            plan@.map_values(|p: Probe| probe_view(p)) == ns.take(i as int).map_values(
                |n: Seq<char>| (true, n),
            ),
        decreases names.len() - i,
    {
        let ghost before = plan@;
        plan.push(Probe::OnPath(names[i].clone()));
        assert(plan@.map_values(|p: Probe| probe_view(p)) =~= before.map_values(
            |p: Probe| probe_view(p),
        ).push(probe_view(plan@.last())));
        assert(ns.take(i + 1).map_values(|n: Seq<char>| (true, n)) =~= ns.take(i as int).map_values(
            |n: Seq<char>| (true, n),
        ).push((true, ns[i as int])));
        i += 1;
    }
    assert(ns.take(names.len() as int) =~= ns);
    let ghost on_path = ns.map_values(|n: Seq<char>| (true, n));
    let ghost hv = match home {
        Some(h) => Some(h@),
        None => None,
    };
    let ghost ds = extra_dirs(hv);
    assert(ds.take(0) =~= Seq::<Seq<char>>::empty());
    assert(on_path + file_probes(ds.take(0), ns) =~= on_path);
    push_file_probes(&mut plan, "/usr/local/bin", names);
    assert(ds.take(1).drop_last() =~= ds.take(0));
    assert(on_path + file_probes(ds.take(1), ns) =~= plan@.map_values(|p: Probe| probe_view(p)));
    push_file_probes(&mut plan, "/usr/bin", names);
    assert(ds.take(2).drop_last() =~= ds.take(1));
    assert(on_path + file_probes(ds.take(2), ns) =~= plan@.map_values(|p: Probe| probe_view(p)));
    if let Some(h) = home {
        let cargo = join_path(h, ".cargo/bin");
        push_file_probes(&mut plan, cargo.as_str(), names);
        assert(ds.take(3).drop_last() =~= ds.take(2));
        assert(on_path + file_probes(ds.take(3), ns) =~= plan@.map_values(
            |p: Probe| probe_view(p),
        ));
        let local = join_path(h, ".local/bin");
        push_file_probes(&mut plan, local.as_str(), names);
        assert(ds.take(4).drop_last() =~= ds.take(3));
        assert(on_path + file_probes(ds.take(4), ns) =~= plan@.map_values(
            |p: Probe| probe_view(p),
        ));
        assert(ds.take(4) =~= ds);
    } else {
        assert(ds.take(2) =~= ds);
    }
    plan
}

/// The location that the first successful probe found (`found` has one
/// entry per probe: the path found, or `None`).
pub fn first_found(found: &Vec<Option<String>>) -> (r: Option<String>)
    ensures
        match r {
            Some(p) => exists|i: int|
                0 <= i < found.len() && found[i] == Some(p) && forall|j: int|
                    0 <= j < i ==> found[j] is None,
            None => forall|j: int| 0 <= j < found.len() ==> found[j] is None,
        },
{
    let mut i: usize = 0;
    while i < found.len()
        invariant
            i <= found.len(),
            forall|j: int| 0 <= j < i ==> found[j] is None,
        decreases found.len() - i,
    {
        if found[i].is_some() {
            return found[i].clone();
        }
        i += 1;
    }
    None
}

/// The availability of the companion apps, from where each was found.
pub fn detect_apps(cosmic_tweaks: Option<String>, fan_control: Option<String>, color_picker: Option<String>) -> (a: CosmicAppsAvailability)
    ensures
        a.cosmic_tweaks_path == cosmic_tweaks,
        a.fan_control_path == fan_control,
        a.color_picker_path == color_picker,
{
    CosmicAppsAvailability {
        cosmic_tweaks_path: cosmic_tweaks,
        fan_control_path: fan_control,
        color_picker_path: color_picker,
    }
}

/// The hint shown when cosmic-tweaks is missing.
pub fn cosmic_tweaks_install_hint() -> (r: &'static str)
    ensures
        r@ == "cosmic-tweaks not found.\nInstall from: https://github.com/cosmic-utils/tweaks\nOr try: cargo install cosmic-tweaks"@,
{
    "cosmic-tweaks not found.\nInstall from: https://github.com/cosmic-utils/tweaks\nOr try: cargo install cosmic-tweaks"
}

/// The hint shown when fan-control is missing.
pub fn fan_control_install_hint() -> (r: &'static str)
    ensures
        r@ == "fan-control not found.\nInstall from: https://github.com/wiiznokes/fan-control\nOr try: cargo install fan-control"@,
{
    "fan-control not found.\nInstall from: https://github.com/wiiznokes/fan-control\nOr try: cargo install fan-control"
}

/// The hint shown when the color picker is missing.
pub fn color_picker_install_hint() -> (r: &'static str)
    ensures
        r@ == "cosmic-color-picker not found.\nInstall from: https://github.com/PixelDoted/cosmic-color-picker\nOr try: cargo install cosmic-color-picker"@,
{
    "cosmic-color-picker not found.\nInstall from: https://github.com/PixelDoted/cosmic-color-picker\nOr try: cargo install cosmic-color-picker"
}

} // verus!
