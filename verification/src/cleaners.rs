//! The system cleaner: the commands that clean each area, and the reading
//! of `dpkg` and `fdupes` output.
use vstd::prelude::*;
use crate::sudo_handler::{temp_clean, temp_clean_command, TempDir};
use crate::text::{
    chars_of, decimal, lines, lines_vec, owned, push_decimal, push_text, starts_with,
    starts_with_text, string_of, string_views, vec_views,
};

verus! {

/// Commands that clean the APT cache (they need root).
pub fn clean_apt_cache() -> (cmds: Vec<String>)
    ensures
        string_views(cmds@) == seq!["apt-get clean"@, "apt-get autoremove --purge -y"@],
{
    let v = vec![owned("apt-get clean"), owned("apt-get autoremove --purge -y")];
    assert(string_views(v@) =~= seq!["apt-get clean"@, "apt-get autoremove --purge -y"@]);
    v
}

/// The command that clears the thumbnail cache under the home directory
/// `home` (`None` when the home directory is unknown).
pub fn clean_thumbnails(home: Option<&str>) -> (cmd: Option<String>)
    ensures
        match home {
            Some(h) => cmd is Some && cmd->0@ == "rm -rf "@ + h@ + "/.cache/thumbnails/*"@,
            None => cmd is None,
        },
{
    match home {
        Some(h) => {
            let mut c = owned("rm -rf ");
            push_text(&mut c, h);
            push_text(&mut c, "/.cache/thumbnails/*");
            Some(c)
        },
        None => None,
    }
}

/// The command that shrinks the journal to `max_size_mb` megabytes.
pub fn clean_journal(max_size_mb: u32) -> (cmd: String)
    ensures
        cmd@ == "journalctl --vacuum-size="@ + decimal(max_size_mb as nat) + "M"@,
{
    let mut c = owned("journalctl --vacuum-size=");
    push_decimal(&mut c, max_size_mb as u64);
    push_text(&mut c, "M");
    c
}

/// Commands that clean the temporary directories `/tmp` and `/var/tmp`,
/// deleting only their stale files (see `temp_clean_command`), so that the
/// files of active sessions stay.
pub fn clean_temp() -> (cmds: Vec<String>)
    ensures
        string_views(cmds@) == seq![temp_clean_command("/tmp"@), temp_clean_command("/var/tmp"@)],
{
    let v = vec![temp_clean(TempDir::Tmp), temp_clean(TempDir::VarTmp)];
    assert(string_views(v@) =~= seq![temp_clean_command("/tmp"@), temp_clean_command("/var/tmp"@)]);
    v
}

/// The command that purges the configuration left by removed packages.
pub fn clean_orphans() -> (cmd: String)
    ensures
        cmd@ == "dpkg -l | grep ^rc | awk '{print $2}' | xargs -r dpkg --purge"@,
{
    owned("dpkg -l | grep ^rc | awk '{print $2}' | xargs -r dpkg --purge")
}

/// How many of `ls` begin with `rc ` (removed packages whose configuration
/// remains).
pub open spec fn rc_count(ls: Seq<Seq<char>>) -> nat
    decreases ls.len(),
{
    if ls.len() == 0 {
        0
    } else {
        rc_count(ls.drop_last()) + if starts_with(ls.last(), "rc "@) {
            1nat
        } else {
            0nat
        }
    }
}

/// The number of orphaned packages in the output of `dpkg -l`.
pub fn scan_orphans(output: &str) -> (n: u32)
    ensures
        n == rc_count(lines(output@)) as u32,
{
    let ls = lines_vec(&chars_of(output));
    let ghost all = vec_views(ls@);
    let mut count: usize = 0;
    let mut i: usize = 0;
    assert(all.take(0) =~= Seq::<Seq<char>>::empty());
    while i < ls.len()
        invariant
            i <= ls.len(),
            all == vec_views(ls@),
            count as nat == rc_count(all.take(i as int)),
            count <= i,
        decreases ls.len() - i,
    {
        assert(all.take(i + 1).drop_last() =~= all.take(i as int));
        assert(all.take(i + 1).last() == ls@[i as int]@);
        if starts_with_text(&ls[i], "rc ") {
            count += 1;
        }
        i += 1;
    }
    assert(all.take(ls.len() as int) =~= all);
    count as u32
}

/// Reading `fdupes` output lines in order: the groups completed so far and
/// the group still being read; an empty line ends a group.
pub open spec fn dup_state(ls: Seq<Seq<char>>) -> (Seq<Seq<Seq<char>>>, Seq<Seq<char>>)
    decreases ls.len(),
{
    if ls.len() == 0 {
        (Seq::empty(), Seq::empty())
    } else {
        let (done, cur) = dup_state(ls.drop_last());
        if ls.last().len() == 0 {
            if cur.len() > 0 {
                (done.push(cur), Seq::empty())
            } else {
                (done, cur)
            }
        } else {
            (done, cur.push(ls.last()))
        }
    }
}

/// The groups of identical files in the output of `fdupes -r -f`.
pub open spec fn dup_groups(output: Seq<char>) -> Seq<Seq<Seq<char>>> {
    let (done, cur) = dup_state(lines(output));
    if cur.len() > 0 {
        done.push(cur)
    } else {
        done
    }
}

/// The file lists of groups of strings.
pub open spec fn nested_views(g: Seq<Vec<String>>) -> Seq<Seq<Seq<char>>> {
    g.map_values(|v: Vec<String>| string_views(v@))
}

/// The groups of duplicate files that `fdupes` printed.
pub fn find_duplicates(output: &str) -> (groups: Vec<Vec<String>>)
    ensures
        nested_views(groups@) == dup_groups(output@),
{
    let ls = lines_vec(&chars_of(output));
    let ghost all = vec_views(ls@);
    let mut groups: Vec<Vec<String>> = Vec::new();
    let mut current: Vec<String> = Vec::new();
    let mut i: usize = 0;
    assert(all.take(0) =~= Seq::<Seq<char>>::empty());
    while i < ls.len()
        invariant
            i <= ls.len(),
            all == vec_views(ls@),
            (nested_views(groups@), string_views(current@)) == dup_state(all.take(i as int)),
        decreases ls.len() - i,
    {
        assert(all.take(i + 1).drop_last() =~= all.take(i as int));
        assert(all.take(i + 1).last() == ls@[i as int]@);
        if ls[i].len() == 0 {
            if current.len() > 0 {
                let ghost before = groups@;
                let ghost cv = string_views(current@);
                groups.push(current);
                assert(nested_views(groups@) =~= nested_views(before).push(cv));
                current = Vec::new();
                assert(string_views(current@) =~= Seq::<Seq<char>>::empty());
            }
        } else {
            let ghost before = current@;
            current.push(string_of(&ls[i]));
            assert(string_views(current@) =~= string_views(before).push(ls@[i as int]@));
        }
        i += 1;
    }
    assert(all.take(ls.len() as int) =~= all);
    if current.len() > 0 {
        let ghost before = groups@;
        let ghost cv = string_views(current@);
        groups.push(current);
        assert(nested_views(groups@) =~= nested_views(before).push(cv));
    }
    groups
}

} // verus!

verus! {

/// What `dup_state` holds: non-empty groups of non-empty lines.
proof fn lemma_dup_state_nonempty(ls: Seq<Seq<char>>)
    ensures
        forall|k: int| 0 <= k < dup_state(ls).0.len() ==> #[trigger] dup_state(ls).0[k].len() > 0,
        forall|k: int, j: int|
            0 <= k < dup_state(ls).0.len() && 0 <= j < dup_state(ls).0[k].len() ==> #[trigger] dup_state(ls).0[k][j].len() > 0,
        forall|j: int| 0 <= j < dup_state(ls).1.len() ==> #[trigger] dup_state(ls).1[j].len() > 0,
    decreases ls.len(),
{
    if ls.len() > 0 {
        lemma_dup_state_nonempty(ls.drop_last());
        let (done, cur) = dup_state(ls.drop_last());
        let (d2, c2) = dup_state(ls);
        if ls.last().len() == 0 {
            if cur.len() > 0 {
                assert(d2 == done.push(cur));
                assert forall|k: int| 0 <= k < d2.len() implies #[trigger] d2[k].len() > 0 by {
                    if k < done.len() {
                        assert(d2[k] == done[k]);
                    }
                }
                assert forall|k: int, j: int| 0 <= k < d2.len() && 0 <= j < d2[k].len() implies #[trigger] d2[k][j].len() > 0 by {
                    if k < done.len() {
                        assert(d2[k] == done[k]);
                    }
                }
            }
        } else {
            assert(c2 == cur.push(ls.last()));
            assert forall|j: int| 0 <= j < c2.len() implies #[trigger] c2[j].len() > 0 by {
                if j < cur.len() {
                    assert(c2[j] == cur[j]);
                }
            }
        }
    }
}

/// Every group of duplicates is non-empty and names no empty path.
pub proof fn law_duplicate_groups_nonempty(output: Seq<char>)
    ensures
        forall|k: int| 0 <= k < dup_groups(output).len() ==> #[trigger] dup_groups(output)[k].len() > 0,
        forall|k: int, j: int|
            0 <= k < dup_groups(output).len() && 0 <= j < dup_groups(output)[k].len() ==> #[trigger] dup_groups(output)[k][j].len() > 0,
{
    lemma_dup_state_nonempty(lines(output));
}

/// The groups one after the other, as one list of lines.
pub open spec fn joined(g: Seq<Seq<Seq<char>>>) -> Seq<Seq<char>>
    decreases g.len(),
{
    if g.len() == 0 {
        Seq::empty()
    } else {
        joined(g.drop_last()) + g.last()
    }
}

/// The lines of `ls` that are not empty, in order.
pub open spec fn filled_lines(ls: Seq<Seq<char>>) -> Seq<Seq<char>>
    decreases ls.len(),
{
    if ls.len() == 0 {
        Seq::empty()
    } else if ls.last().len() == 0 {
        filled_lines(ls.drop_last())
    } else {
        filled_lines(ls.drop_last()).push(ls.last())
    }
}

/// The number of maximal runs of non-empty lines in `ls`.
pub open spec fn runs(ls: Seq<Seq<char>>) -> nat
    decreases ls.len(),
{
    if ls.len() == 0 {
        0
    } else if ls.last().len() > 0 && (ls.len() == 1 || ls[ls.len() - 2].len() == 0) {
        runs(ls.drop_last()) + 1
    } else {
        runs(ls.drop_last())
    }
}

/// While reading, the completed groups and the open one hold every
/// non-empty line so far; one group is open exactly when the last line
/// read is not empty, and each run of non-empty lines has been counted.
proof fn lemma_dup_state_lines(ls: Seq<Seq<char>>)
    ensures
        joined(dup_state(ls).0) + dup_state(ls).1 == filled_lines(ls),
        (dup_state(ls).1.len() > 0) == (ls.len() > 0 && ls.last().len() > 0),
        dup_state(ls).0.len() + (if dup_state(ls).1.len() > 0 {
            1int
        } else {
            0int
        }) == runs(ls),
    decreases ls.len(),
{
    if ls.len() > 0 {
        let prev = ls.drop_last();
        lemma_dup_state_lines(prev);
        let (done, cur) = dup_state(prev);
        if ls.last().len() == 0 {
            if cur.len() > 0 {
                assert(joined(done.push(cur)) == joined(done) + cur) by {
                    assert(done.push(cur).drop_last() =~= done);
                }
                assert(joined(done.push(cur)) + Seq::<Seq<char>>::empty() =~= joined(done) + cur);
            }
        } else {
            assert(joined(done) + cur.push(ls.last()) =~= (joined(done) + cur).push(ls.last()));
            if ls.len() > 1 {
                assert(prev.last() == ls[ls.len() - 2]);
            }
        }
    }
}

/// No path is lost or added: the duplicate groups, one after the other,
/// are exactly the non-empty lines of the output in order, so a group of a
/// single line (`fdupes -f` prints one line per pair) is kept.
pub proof fn law_duplicate_lines_kept(output: Seq<char>)
    ensures
        joined(dup_groups(output)) == filled_lines(lines(output)),
{
    let ls = lines(output);
    lemma_dup_state_lines(ls);
    let (done, cur) = dup_state(ls);
    if cur.len() > 0 {
        assert(done.push(cur).drop_last() =~= done);
    } else {
        assert(joined(done) + cur =~= joined(done));
    }
}

/// There is one duplicate group per maximal run of non-empty lines.
pub proof fn law_one_group_per_run(output: Seq<char>)
    ensures
        dup_groups(output).len() == runs(lines(output)),
{
    lemma_dup_state_lines(lines(output));
}

} // verus!
