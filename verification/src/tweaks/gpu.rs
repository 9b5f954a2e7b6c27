//! Intel GPU driver parameters.
use vstd::prelude::*;
use crate::text::{chars_of, is_text, trim_chars, trim_vec};

verus! {

/// A driver parameter reads as "yes": `to_lowercase() == "y"` holds exactly
/// for `"y"` and `"Y"`.
pub open spec fn is_yes(t: Seq<char>) -> bool {
    t == "y"@ || t == "Y"@
}

/// GuC firmware loading is on: the parameter is `2`, `3` or yes.
pub open spec fn guc_on(content: Option<Seq<char>>) -> bool {
    match content {
        Some(c) => {
            let t = trim_chars(c);
            t == "2"@ || t == "3"@ || is_yes(t)
        },
        None => false,
    }
}

/// A switch parameter (PSR, FBC) is on: it is `1` or yes.
pub open spec fn switch_on(content: Option<Seq<char>>) -> bool {
    match content {
        Some(c) => {
            let t = trim_chars(c);
            t == "1"@ || is_yes(t)
        },
        None => false,
    }
}

/// RC6 is on: the parameter is anything but `0`.
pub open spec fn rc6_on(content: Option<Seq<char>>) -> bool {
    match content {
        Some(c) => trim_chars(c) != "0"@,
        None => false,
    }
}

/// The view of an optional text.
pub open spec fn opt_text(content: Option<&str>) -> Option<Seq<char>> {
    match content {
        Some(c) => Some(c@),
        None => None,
    }
}

fn yes(t: &Vec<char>) -> (r: bool)
    ensures
        r == is_yes(t@),
{
    is_text(t, "y") || is_text(t, "Y")
}

/// Whether GuC loading is on, from `enable_guc` (`None`: unreadable).
pub fn read_intel_guc(content: Option<&str>) -> (on: bool)
    ensures
        on == guc_on(opt_text(content)),
{
    match content {
        Some(c) => {
            let t = trim_vec(&chars_of(c));
            is_text(&t, "2") || is_text(&t, "3") || yes(&t)
        },
        None => false,
    }
}

fn read_switch(content: Option<&str>) -> (on: bool)
    ensures
        on == switch_on(opt_text(content)),
{
    match content {
        Some(c) => {
            let t = trim_vec(&chars_of(c));
            is_text(&t, "1") || yes(&t)
        },
        None => false,
    }
}

/// Whether Panel Self Refresh is on, from `enable_psr`.
pub fn read_intel_psr(content: Option<&str>) -> (on: bool)
    ensures
        on == switch_on(opt_text(content)),
{
    read_switch(content)
}

/// Whether framebuffer compression is on, from `enable_fbc`.
pub fn read_intel_fbc(content: Option<&str>) -> (on: bool)
    ensures
        on == switch_on(opt_text(content)),
{
    read_switch(content)
}

/// Whether RC6 power saving is on, from `enable_rc6`.
pub fn read_intel_rc6(content: Option<&str>) -> (on: bool)
    ensures
        on == rc6_on(opt_text(content)),
{
    match content {
        Some(c) => {
            let t = trim_vec(&chars_of(c));
            !is_text(&t, "0")
        },
        None => false,
    }
}

} // verus!
