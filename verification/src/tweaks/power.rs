//! Power management: Wi-Fi and audio power saving, wireless interface.
use vstd::prelude::*;
use crate::text::{
    chars_of, ends_with, ends_with_text, fields, fields_vec, has, has_text, lines, lines_vec,
    option_views, owned, string_of, trim_chars, trim_vec, vec_views,
};

verus! {

/// The interfaces probed for Wi-Fi power saving, in order.
pub open spec fn wifi_interface_names() -> Seq<Seq<char>> {
    seq!["wlan0"@, "wlo1"@, "wifi0"@]
}

/// The interfaces probed for Wi-Fi power saving, in order.
pub fn wifi_interfaces() -> (r: Vec<String>)
    ensures
        r@.map_values(|s: String| s@) == wifi_interface_names(),
{
    let v = vec![owned("wlan0"), owned("wlo1"), owned("wifi0")];
    assert(v@.map_values(|s: String| s@) =~= wifi_interface_names());
    v
}

/// From `iw dev <iface> get power_save`, one entry per interface: the output
/// of each successful run (`None` where the command failed). The first
/// success decides: power saving is on when its trimmed output ends in `on`.
pub open spec fn iw_verdict(outs: Seq<Option<Seq<char>>>) -> Option<bool>
    decreases outs.len(),
{
    if outs.len() == 0 {
        None
    } else {
        match outs[0] {
            Some(o) => Some(ends_with(trim_chars(o), "on"@)),
            None => iw_verdict(outs.drop_first()),
        }
    }
}

/// From `iwconfig <iface>`, one entry per interface that ran: the first
/// output that names the power management state decides.
pub open spec fn iwconfig_verdict(outs: Seq<Option<Seq<char>>>) -> bool
    decreases outs.len(),
{
    if outs.len() == 0 {
        false
    } else {
        match outs[0] {
            Some(o) => if has(o, "Power Management:on"@) {
                true
            } else if has(o, "Power Management:off"@) {
                false
            } else {
                iwconfig_verdict(outs.drop_first())
            },
            None => iwconfig_verdict(outs.drop_first()),
        }
    }
}

/// Wi-Fi power saving is on: `iw` decides when any run succeeded, else
/// `iwconfig`.
pub open spec fn wifi_powersave(iw: Seq<Option<Seq<char>>>, iwconfig: Seq<Option<Seq<char>>>) -> bool {
    match iw_verdict(iw) {
        Some(b) => b,
        None => iwconfig_verdict(iwconfig),
    }
}

/// Whether Wi-Fi power saving is on, from the outputs of `iw` (successful
/// runs) and of `iwconfig` (runs that started), in interface order.
pub fn check_wifi_powersave(iw: &Vec<Option<String>>, iwconfig: &Vec<Option<String>>) -> (on: bool)
    ensures
        on == wifi_powersave(option_views(iw@), option_views(iwconfig@)),
{
    let ghost a = option_views(iw@);
    let mut i: usize = 0;
    assert(a.skip(0) =~= a);
    while i < iw.len()
        invariant
            i <= iw.len(),
            a == option_views(iw@),
            iw_verdict(a) == iw_verdict(a.skip(i as int)),
        decreases iw.len() - i,
    {
        assert(a.skip(i as int)[0] == option_views(iw@)[i as int]);
        if let Some(o) = &iw[i] {
            let t = trim_vec(&chars_of(o.as_str()));
            return ends_with_text(&t, "on");
        }
        assert(a.skip(i as int).drop_first() =~= a.skip(i + 1));
        i += 1;
    }
    assert(a.skip(iw.len() as int) =~= Seq::<Option<Seq<char>>>::empty());
    assert(iw_verdict(a) is None);
    let ghost b = option_views(iwconfig@);
    let mut j: usize = 0;
    assert(b.skip(0) =~= b);
    while j < iwconfig.len()
        invariant
            j <= iwconfig.len(),
            b == option_views(iwconfig@),
            iw_verdict(option_views(iw@)) is None,
            iwconfig_verdict(b) == iwconfig_verdict(b.skip(j as int)),
        decreases iwconfig.len() - j,
    {
        assert(b.skip(j as int)[0] == option_views(iwconfig@)[j as int]);
        if let Some(o) = &iwconfig[j] {
            let c = chars_of(o.as_str());
            if has_text(&c, "Power Management:on") {
                return true;
            } else if has_text(&c, "Power Management:off") {
                return false;
            }
        }
        assert(b.skip(j as int).drop_first() =~= b.skip(j + 1));
        j += 1;
    }
    false
}

/// The first interface named on a line of `ip link show` that mentions
/// `wlan` or `wlo`: the trimmed text after its first `:`, when not empty.
pub open spec fn wireless_in(ls: Seq<Seq<char>>) -> Option<Seq<char>>
    decreases ls.len(),
{
    if ls.len() == 0 {
        None
    } else {
        let line = ls[0];
        let f = fields(line, ':');
        if (has(line, "wlan"@) || has(line, "wlo"@)) && f.len() >= 2 && trim_chars(f[1]).len() > 0 {
            Some(trim_chars(f[1]))
        } else {
            wireless_in(ls.drop_first())
        }
    }
}

/// The wireless interface named in the output of `ip link show`.
pub fn wireless_interface(output: &str) -> (r: Option<String>)
    ensures
        match r {
            Some(n) => wireless_in(lines(output@)) == Some(n@),
            None => wireless_in(lines(output@)) is None,
        },
{
    let ls = lines_vec(&chars_of(output));
    let ghost all = vec_views(ls@);
    let mut i: usize = 0;
    assert(all.skip(0) =~= all);
    while i < ls.len()
        invariant
            i <= ls.len(),
            all == vec_views(ls@),
            all == lines(output@),
            wireless_in(all) == wireless_in(all.skip(i as int)),
        decreases ls.len() - i,
    {
        let line = &ls[i];
        assert(all.skip(i as int)[0] == line@);
        if has_text(line, "wlan") || has_text(line, "wlo") {
            let f = fields_vec(line, ':');
            if f.len() >= 2 {
                assert(vec_views(f@)[1] == f@[1]@);
                let name = trim_vec(&f[1]);
                if name.len() > 0 {
                    return Some(string_of(&name));
                }
            }
        }
        assert(all.skip(i as int).drop_first() =~= all.skip(i + 1));
        i += 1;
    }
    None
}

/// Audio power saving is on: the first readable `power_save` parameter is
/// anything but `0`.
pub open spec fn audio_powersave(contents: Seq<Option<Seq<char>>>) -> bool
    decreases contents.len(),
{
    if contents.len() == 0 {
        false
    } else {
        match contents[0] {
            Some(c) => trim_chars(c) != "0"@,
            None => audio_powersave(contents.drop_first()),
        }
    }
}

/// Whether audio power saving is on, from the `power_save` parameters of
/// the sound drivers in probe order (`None`: unreadable).
pub fn check_audio_powersave(contents: &Vec<Option<String>>) -> (on: bool)
    ensures
        on == audio_powersave(option_views(contents@)),
{
    let ghost a = option_views(contents@);
    let mut i: usize = 0;
    assert(a.skip(0) =~= a);
    while i < contents.len()
        invariant
            i <= contents.len(),
            a == option_views(contents@),
            audio_powersave(a) == audio_powersave(a.skip(i as int)),
        decreases contents.len() - i,
    {
        assert(a.skip(i as int)[0] == option_views(contents@)[i as int]);
        if let Some(c) = &contents[i] {
            let t = trim_vec(&chars_of(c.as_str()));
            return !crate::text::is_text(&t, "0");
        }
        assert(a.skip(i as int).drop_first() =~= a.skip(i + 1));
        i += 1;
    }
    false
}

} // verus!
