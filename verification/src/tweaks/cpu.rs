//! CPU frequency scaling: governors and turbo boost.
use vstd::prelude::*;
use crate::text::{
    chars_of, is_text, owned, parse_u64_or_zero, string_views, trim_chars, trim_vec, u64_or_zero,
    words, words_of,
};

verus! {

/// The governors offered when the kernel's list cannot be read.
pub open spec fn fallback_governors() -> Seq<Seq<char>> {
    seq!["powersave"@, "schedutil"@, "performance"@]
}

/// The scaling governors on offer, from the content of
/// `scaling_available_governors` (`None` when it could not be read).
pub fn available_governors(content: Option<&str>) -> (g: Vec<String>)
    ensures
        string_views(g@) == match content {
            Some(c) => words(c@),
            None => fallback_governors(),
        },
{
    match content {
        Some(c) => words_of(c),
        None => {
            let v = vec![owned("powersave"), owned("schedutil"), owned("performance")];
            assert(string_views(v@) =~= fallback_governors());
            v
        },
    }
}

/// Whether turbo boost is off: with the Intel P-state driver `content` is
/// `intel_pstate/no_turbo` and a failed read is an error (`None`); otherwise
/// it is `cpufreq/boost` and a failed read means "not disabled".
pub open spec fn turbo_disabled(pstate_active: bool, content: Option<Seq<char>>) -> Option<bool> {
    if pstate_active {
        match content {
            Some(c) => Some(trim_chars(c) == "1"@),
            None => None,
        }
    } else {
        match content {
            Some(c) => Some(trim_chars(c) == "0"@),
            None => Some(false),
        }
    }
}

/// Whether turbo boost is disabled, from the driver file's content.
pub fn read_turbo_disabled(pstate_active: bool, content: Option<&str>) -> (r: Option<bool>)
    ensures
        r == turbo_disabled(
            pstate_active,
            match content {
                Some(c) => Some(c@),
                None => None,
            },
        ),
{
    match content {
        Some(c) => {
            let t = trim_vec(&chars_of(c));
            if pstate_active {
                Some(is_text(&t, "1"))
            } else {
                Some(is_text(&t, "0"))
            }
        },
        None => if pstate_active {
            None
        } else {
            Some(false)
        },
    }
}

/// The current frequency of CPU 0 in kHz, from `scaling_cur_freq`: the
/// trimmed text read as a `u64`, or 0.
pub fn get_current_freq(content: &str) -> (f: u64)
    ensures
        f as nat == u64_or_zero(content@),
{
    parse_u64_or_zero(content)
}

/// The largest frequency of CPU 0 in kHz, from `scaling_max_freq`: the
/// trimmed text read as a `u64`, or 0.
pub fn get_max_freq(content: &str) -> (f: u64)
    ensures
        f as nat == u64_or_zero(content@),
{
    parse_u64_or_zero(content)
}

/// The number of logical CPUs available to this process
/// (`num_cpus::get`); it depends on the machine, and is never zero.
#[verifier::external_body]
fn cpus_available() -> (n: usize)
    ensures
        n >= 1,
{
    num_cpus::get()
}

/// The number of CPU cores available; at least one.
pub fn core_count() -> (n: usize)
    ensures
        n >= 1,
{
    cpus_available()
}

} // verus!
