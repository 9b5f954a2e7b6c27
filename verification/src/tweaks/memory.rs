//! Memory figures from `/proc/meminfo`.
use vstd::prelude::*;
use crate::text::{
    chars_of, lines, lines_vec, parse_unsigned, parse_unsigned_vec, starts_with,
    starts_with_text, vec_views, words, words_vec,
};

verus! {

/// The kilobytes on a meminfo line (`MemTotal:  16384000 kB`): its second
/// word read as a `u64`, or 0.
pub open spec fn line_kb(line: Seq<char>) -> nat {
    let w = words(line);
    if w.len() >= 2 {
        match parse_unsigned(w[1], u64::MAX as nat) {
            Some(n) => n,
            None => 0,
        }
    } else {
        0
    }
}

/// The kilobytes on the last of `ls` that begins with `key`, or 0.
pub open spec fn last_kb(ls: Seq<Seq<char>>, key: Seq<char>) -> nat
    decreases ls.len(),
{
    if ls.len() == 0 {
        0
    } else if starts_with(ls.last(), key) {
        line_kb(ls.last())
    } else {
        last_kb(ls.drop_last(), key)
    }
}

/// Total memory in kilobytes, as `/proc/meminfo` gives it.
pub open spec fn total_kb(content: Seq<char>) -> nat {
    last_kb(lines(content), "MemTotal:"@)
}

/// Available memory in kilobytes, as `/proc/meminfo` gives it.
pub open spec fn available_kb(content: Seq<char>) -> nat {
    last_kb(lines(content), "MemAvailable:"@)
}

/// The kilobytes on one meminfo line.
pub fn parse_meminfo_kb(line: &str) -> (kb: u64)
    ensures
        kb as nat == line_kb(line@),
{
    line_kb_of(&chars_of(line))
}

fn line_kb_of(line: &Vec<char>) -> (kb: u64)
    ensures
        kb as nat == line_kb(line@),
{
    let w = words_vec(line);
    if w.len() >= 2 {
        assert(vec_views(w@)[1] == w@[1]@);
        match parse_unsigned_vec(&w[1], u64::MAX) {
            Some(n) => n,
            None => 0,
        }
    } else {
        0
    }
}

/// Total and available memory in kilobytes, from the content of
/// `/proc/meminfo`; a figure that is missing reads as 0.
pub fn meminfo_totals(content: &str) -> (r: (u64, u64))
    ensures
        r.0 as nat == total_kb(content@),
        r.1 as nat == available_kb(content@),
{
    let ls = lines_vec(&chars_of(content));
    let ghost all = vec_views(ls@);
    let mut total: u64 = 0;
    let mut avail: u64 = 0;
    let mut i: usize = 0;
    assert(all.take(0) =~= Seq::<Seq<char>>::empty());
    while i < ls.len()
        invariant
            i <= ls.len(),
            all == vec_views(ls@),
            total as nat == last_kb(all.take(i as int), "MemTotal:"@),
            avail as nat == last_kb(all.take(i as int), "MemAvailable:"@),
        decreases ls.len() - i,
    {
        let line = &ls[i];
        assert(all.take(i + 1).drop_last() =~= all.take(i as int));
        assert(all.take(i + 1).last() == line@);
        if starts_with_text(line, "MemTotal:") {
            proof {
                reveal_strlit("MemTotal:");
                reveal_strlit("MemAvailable:");
                assert(line@.take(9)[3] == 'T');
                assert(!starts_with(line@, "MemAvailable:"@)) by {
                    if starts_with(line@, "MemAvailable:"@) {
                        assert(line@.take(13)[3] == 'A');
                    }
                }
            }
            total = line_kb_of(line);
        } else if starts_with_text(line, "MemAvailable:") {
            avail = line_kb_of(line);
        }
        i += 1;
    }
    assert(all.take(ls.len() as int) =~= all);
    (total, avail)
}

/// Total and available memory in MiB, from the content of `/proc/meminfo`.
pub fn get_memory_info(content: &str) -> (r: (u64, u64))
    ensures
        r.0 as nat == total_kb(content@) / 1024,
        r.1 as nat == available_kb(content@) / 1024,
{
    let (t, a) = meminfo_totals(content);
    (t / 1024, a / 1024)
}

} // verus!
