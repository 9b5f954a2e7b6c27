//! Storage settings: I/O scheduler, access-time mount options, devices.
use vstd::prelude::*;
use crate::tweaks::kernel::{bracketed_choice, first_bracketed};
use crate::text::{chars_of, has, has_text, option_views, owned, push_text, string_of, words};

verus! {

/// The block devices probed, in order.
pub open spec fn block_device_names() -> Seq<Seq<char>> {
    seq!["nvme0n1"@, "nvme1n1"@, "sda"@, "sdb"@, "vda"@]
}

/// The block devices probed, in order.
pub fn block_devices() -> (r: Vec<String>)
    ensures
        r@.map_values(|s: String| s@) == block_device_names(),
{
    let v = vec![owned("nvme0n1"), owned("nvme1n1"), owned("sda"), owned("sdb"), owned("vda")];
    assert(v@.map_values(|s: String| s@) =~= block_device_names());
    v
}

/// The scheduler file of block device `dev`.
pub fn scheduler_path(dev: &str) -> (p: String)
    ensures
        p@ == "/sys/block/"@ + dev@ + "/queue/scheduler"@,
{
    let mut p = owned("/sys/block/");
    push_text(&mut p, dev);
    push_text(&mut p, "/queue/scheduler");
    p
}

/// The active scheduler of the first device whose scheduler file was read
/// and marks one, else `mq-deadline`.
pub open spec fn io_scheduler(contents: Seq<Option<Seq<char>>>) -> Seq<char>
    decreases contents.len(),
{
    if contents.len() == 0 {
        "mq-deadline"@
    } else {
        match contents[0] {
            Some(c) => match first_bracketed(words(c)) {
                Some(s) => s,
                None => io_scheduler(contents.drop_first()),
            },
            None => io_scheduler(contents.drop_first()),
        }
    }
}

/// The I/O scheduler in use, from the scheduler files of the probed devices
/// in order (`None`: unreadable).
pub fn read_io_scheduler(contents: &Vec<Option<String>>) -> (s: String)
    ensures
        s@ == io_scheduler(option_views(contents@)),
{
    let ghost a = option_views(contents@);
    let mut i: usize = 0;
    assert(a.skip(0) =~= a);
    while i < contents.len()
        invariant
            i <= contents.len(),
            a == option_views(contents@),
            io_scheduler(a) == io_scheduler(a.skip(i as int)),
        decreases contents.len() - i,
    {
        assert(a.skip(i as int)[0] == option_views(contents@)[i as int]);
        if let Some(c) = &contents[i] {
            if let Some(s) = bracketed_choice(&chars_of(c.as_str())) {
                return string_of(&s);
            }
        }
        assert(a.skip(i as int).drop_first() =~= a.skip(i + 1));
        i += 1;
    }
    owned("mq-deadline")
}

/// `/etc/fstab` (`None`: unreadable) sets `noatime` or `relatime`.
pub open spec fn noatime_set(content: Option<Seq<char>>) -> bool {
    match content {
        Some(c) => has(c, "noatime"@) || has(c, "relatime"@),
        None => false,
    }
}

/// Whether an access-time saving mount option is configured.
pub fn check_noatime(content: Option<&str>) -> (on: bool)
    ensures
        on == noatime_set(
            match content {
                Some(c) => Some(c@),
                None => None,
            },
        ),
{
    match content {
        Some(c) => {
            let v = chars_of(c);
            has_text(&v, "noatime") || has_text(&v, "relatime")
        },
        None => false,
    }
}

/// The first probed device whose scheduler file exists, given one flag per
/// device of `block_device_names()`.
pub fn first_block_device(present: &Vec<bool>) -> (r: Option<String>)
    ensures
        match r {
            Some(d) => exists|i: int|
                0 <= i < present.len() && i < block_device_names().len() && present[i]
                    && d@ == block_device_names()[i] && forall|j: int| 0 <= j < i ==> !present[j],
            None => forall|j: int| 0 <= j < present.len() && j < block_device_names().len() ==> !present[j],
        },
{
    let devs = block_devices();
    let mut i: usize = 0;
    while i < devs.len() && i < present.len()
        invariant
            i <= devs.len(),
            devs@.map_values(|s: String| s@) == block_device_names(),
            forall|j: int| 0 <= j < i && j < present.len() ==> !present[j],
        decreases devs.len() - i,
    {
        if present[i] {
            let d = devs[i].clone();
            assert(devs@.map_values(|s: String| s@)[i as int] == devs@[i as int]@);
            return Some(d);
        }
        i += 1;
    }
    None
}

} // verus!
