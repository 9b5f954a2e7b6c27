//! Network stack settings: congestion control and interface counters.
use vstd::prelude::*;
use crate::text::{
    chars_of, fields, fields_vec, is_text, owned, push_text, string_views, strings_of,
    trim_chars, trim_vec, vec_views, words, words_vec,
};

verus! {

/// BBR is the active congestion control, from the content of
/// `tcp_congestion_control` (`None`: unreadable).
pub open spec fn bbr_active(content: Option<Seq<char>>) -> bool {
    match content {
        Some(c) => trim_chars(c) == "bbr"@,
        None => false,
    }
}

/// Whether BBR congestion control is in use.
pub fn check_bbr(content: Option<&str>) -> (on: bool)
    ensures
        on == bbr_active(
            match content {
                Some(c) => Some(c@),
                None => None,
            },
        ),
{
    match content {
        Some(c) => is_text(&trim_vec(&chars_of(c)), "bbr"),
        None => false,
    }
}

/// The algorithms listed when `sysctl` cannot tell.
pub open spec fn fallback_controls() -> Seq<Seq<char>> {
    seq!["cubic"@, "bbr"@]
}

/// The congestion control algorithms from the output of a successful
/// `sysctl net.ipv4.tcp_available_congestion_control` (`None`: the command
/// failed): the words after the first `=`, up to any second `=`.
pub open spec fn controls_from(output: Option<Seq<char>>) -> Seq<Seq<char>> {
    match output {
        Some(out) => {
            let f = fields(out, '=');
            if f.len() >= 2 {
                words(f[1])
            } else {
                fallback_controls()
            }
        },
        None => fallback_controls(),
    }
}

/// The available TCP congestion control algorithms.
pub fn available_congestion_controls(output: Option<&str>) -> (r: Vec<String>)
    ensures
        string_views(r@) == controls_from(
            match output {
                Some(o) => Some(o@),
                None => None,
            },
        ),
{
    if let Some(out) = output {
        let f = fields_vec(&chars_of(out), '=');
        if f.len() >= 2 {
            assert(vec_views(f@)[1] == f@[1]@);
            let w = words_vec(&f[1]);
            return strings_of(&w);
        }
    }
    let v = vec![owned("cubic"), owned("bbr")];
    assert(string_views(v@) =~= fallback_controls());
    v
}

/// The files holding the received and sent byte counters of `iface`.
pub fn network_stats_paths(iface: &str) -> (r: (String, String))
    ensures
        r.0@ == "/sys/class/net/"@ + iface@ + "/statistics"@ + "/rx_bytes"@,
        r.1@ == "/sys/class/net/"@ + iface@ + "/statistics"@ + "/tx_bytes"@,
{
    let mut base = owned("/sys/class/net/");
    push_text(&mut base, iface);
    push_text(&mut base, "/statistics");
    let mut rx = base.clone();
    push_text(&mut rx, "/rx_bytes");
    push_text(&mut base, "/tx_bytes");
    (rx, base)
}

} // verus!
