//! Backups with rclone: remotes, file selection and upload destinations.
use vstd::prelude::*;
use crate::text::{
    chars_of, field_state, fields, fields_vec, lines, lines_vec, owned, push_text, string_of, string_views,
    strings_of, sub_vec, trim_chars, trim_vec, vec_views,
};

verus! {

/// What the backup page holds: the configured remote and the queued files.
#[derive(Clone, Debug)]
pub struct BackupState {
    pub remote_name: Option<String>,
    pub remote_type: Option<String>,
    pub queued_files: Vec<String>,
    pub is_configured: bool,
    pub apt_cache_selected: bool,
    pub thumbnail_selected: bool,
    pub journal_selected: bool,
    pub temp_selected: bool,
    pub orphan_selected: bool,
}

impl Default for BackupState {
    fn default() -> (s: Self)
        ensures
            s.remote_name is None,
            s.remote_type is None,
            s.queued_files@.len() == 0,
            !s.is_configured,
            !s.apt_cache_selected,
            !s.thumbnail_selected,
            !s.journal_selected,
            !s.temp_selected,
            !s.orphan_selected,
    {
        BackupState {
            remote_name: None,
            remote_type: None,
            queued_files: Vec::new(),
            is_configured: false,
            apt_cache_selected: false,
            thumbnail_selected: false,
            journal_selected: false,
            temp_selected: false,
            orphan_selected: false,
        }
    }
}

/// `s` without the `':'` characters at its end (`trim_end_matches(':')`).
pub open spec fn trim_colons(s: Seq<char>) -> Seq<char>
    decreases s.len(),
{
    if s.len() > 0 && s.last() == ':' {
        trim_colons(s.drop_last())
    } else {
        s
    }
}

/// The non-empty names among `ls`, each without trailing colons.
pub open spec fn remote_names(ls: Seq<Seq<char>>) -> Seq<Seq<char>>
    decreases ls.len(),
{
    if ls.len() == 0 {
        Seq::empty()
    } else {
        let n = trim_colons(ls.last());
        if n.len() > 0 {
            remote_names(ls.drop_last()).push(n)
        } else {
            remote_names(ls.drop_last())
        }
    }
}

/// The remotes in the output of `rclone listremotes`.
pub fn list_remotes(output: &str) -> (names: Vec<String>)
    ensures
        string_views(names@) == remote_names(lines(output@)),
{
    let ls = lines_vec(&chars_of(output));
    let ghost all = vec_views(ls@);
    let mut names: Vec<String> = Vec::new();
    let mut i: usize = 0;
    assert(all.take(0) =~= Seq::<Seq<char>>::empty());
    while i < ls.len()
        invariant
            i <= ls.len(),
            all == vec_views(ls@),
            string_views(names@) == remote_names(all.take(i as int)),
        decreases ls.len() - i,
    {
        assert(all.take(i + 1).drop_last() =~= all.take(i as int));
        assert(all.take(i + 1).last() == ls@[i as int]@);
        let line = &ls[i];
        let mut end = line.len();
        assert(line@.take(line.len() as int) =~= line@);
        while end > 0 && line[end - 1] == ':'
            invariant
                end <= line.len(),
                trim_colons(line@) == trim_colons(line@.take(end as int)),
            decreases end,
        {
            assert(line@.take(end as int).drop_last() =~= line@.take(end - 1));
            end -= 1;
        }
        if end > 0 {
            let ghost before = names@;
            let n = string_of(&sub_vec(line, 0, end));
            assert(line@.subrange(0, end as int) =~= line@.take(end as int));
            names.push(n);
            assert(string_views(names@) =~= string_views(before).push(n@));
        } else {
            assert(line@.take(0) =~= Seq::<char>::empty());
        }
        i += 1;
    }
    assert(all.take(ls.len() as int) =~= all);
    names
}

/// The terminal emulators tried for `rclone config`, in order, each with
/// its arguments.
pub open spec fn terminal_table() -> Seq<(Seq<char>, Seq<Seq<char>>)> {
    seq![
        ("cosmic-term"@, seq!["-e"@, "rclone"@, "config"@]),
        ("gnome-terminal"@, seq!["--"@, "rclone"@, "config"@]),
        ("konsole"@, seq!["-e"@, "rclone"@, "config"@]),
        ("xfce4-terminal"@, seq!["-e"@, "rclone"@, "config"@]),
        ("xterm"@, seq!["-e"@, "rclone"@, "config"@]),
    ]
}

/// The names of the terminal emulators tried for `rclone config`.
pub fn config_terminals() -> (r: Vec<String>)
    ensures
        r@.len() == terminal_table().len(),
        forall|i: int| 0 <= i < r@.len() ==> #[trigger] r@[i]@ == terminal_table()[i].0,
{
    let v = vec![
        owned("cosmic-term"),
        owned("gnome-terminal"),
        owned("konsole"),
        owned("xfce4-terminal"),
        owned("xterm"),
    ];
    v
}

fn command_args(flag: &str) -> (r: Vec<String>)
    ensures
        string_views(r@) == seq![flag@, "rclone"@, "config"@],
{
    let v = vec![owned(flag), owned("rclone"), owned("config")];
    assert(string_views(v@) =~= seq![flag@, "rclone"@, "config"@]);
    v
}

/// The command that opens `rclone config`: the first terminal of the table
/// that is installed (one flag per entry), or `None` when none is.
pub fn open_rclone_config(installed: &Vec<bool>) -> (r: Option<(String, Vec<String>)>)
    ensures
        match r {
            Some((term, args)) => exists|i: int|
                0 <= i < installed.len() && i < terminal_table().len() && installed[i] && (forall|
                    j: int,
                | 0 <= j < i ==> !installed[j]) && term@ == terminal_table()[i].0 && string_views(
                    args@,
                ) == terminal_table()[i].1,
            None => forall|j: int|
                0 <= j < installed.len() && j < terminal_table().len() ==> !installed[j],
        },
{
    let terms = config_terminals();
    let mut i: usize = 0;
    while i < terms.len() && i < installed.len()
        invariant
            i <= terms.len(),
            terms@.len() == terminal_table().len(),
            forall|k: int| 0 <= k < terms@.len() ==> #[trigger] terms@[k]@ == terminal_table()[k].0,
            forall|j: int| 0 <= j < i && j < installed.len() ==> !installed[j],
        decreases terms.len() - i,
    {
        if installed[i] {
            let args = if i == 1 {
                command_args("--")
            } else {
                command_args("-e")
            };
            assert(terms@[i as int]@ == terminal_table()[i as int].0);
            return Some((terms[i].clone(), args));
        }
        i += 1;
    }
    None
}

/// The command-line file pickers, in the order they are tried after the
/// desktop portal.
#[derive(Clone, Copy, Debug, PartialEq, Eq, Structural)]
pub enum FilePicker {
    Zenity,
    Kdialog,
    Yad,
}

/// The file picker to fall back on, from which of them are installed.
pub fn fallback_picker(zenity: bool, kdialog: bool, yad: bool) -> (p: Option<FilePicker>)
    ensures
        p == (if zenity {
            Some(FilePicker::Zenity)
        } else if kdialog {
            Some(FilePicker::Kdialog)
        } else if yad {
            Some(FilePicker::Yad)
        } else {
            None
        }),
{
    if zenity {
        Some(FilePicker::Zenity)
    } else if kdialog {
        Some(FilePicker::Kdialog)
    } else if yad {
        Some(FilePicker::Yad)
    } else {
        None
    }
}

/// The paths picked with zenity or kdialog: one per output line.
pub fn picked_lines(output: &str) -> (paths: Vec<String>)
    ensures
        string_views(paths@) == lines(output@),
{
    let ls = lines_vec(&chars_of(output));
    strings_of(&ls)
}

/// The trimmed, non-empty fields of `fs`.
pub open spec fn nonempty_trimmed(fs: Seq<Seq<char>>) -> Seq<Seq<char>>
    decreases fs.len(),
{
    if fs.len() == 0 {
        Seq::empty()
    } else {
        let t = trim_chars(fs.last());
        if t.len() > 0 {
            nonempty_trimmed(fs.drop_last()).push(t)
        } else {
            nonempty_trimmed(fs.drop_last())
        }
    }
}

/// The paths picked with yad, which separates them with `|`.
pub fn picked_yad(output: &str) -> (paths: Vec<String>)
    ensures
        string_views(paths@) == nonempty_trimmed(fields(output@, '|')),
{
    let fs = fields_vec(&chars_of(output), '|');
    let ghost all = vec_views(fs@);
    let mut paths: Vec<String> = Vec::new();
    let mut i: usize = 0;
    assert(all.take(0) =~= Seq::<Seq<char>>::empty());
    while i < fs.len()
        invariant
            i <= fs.len(),
            all == vec_views(fs@),
            string_views(paths@) == nonempty_trimmed(all.take(i as int)),
        decreases fs.len() - i,
    {
        assert(all.take(i + 1).drop_last() =~= all.take(i as int));
        assert(all.take(i + 1).last() == fs@[i as int]@);
        let t = trim_vec(&fs[i]);
        if t.len() > 0 {
            let ghost before = paths@;
            paths.push(string_of(&t));
            assert(string_views(paths@) =~= string_views(before).push(t@));
        }
        i += 1;
    }
    assert(all.take(fs.len() as int) =~= all);
    paths
}

/// The components of a path that name something: not empty, not `.`.
pub open spec fn named_segments(fs: Seq<Seq<char>>) -> Seq<Seq<char>>
    decreases fs.len(),
{
    if fs.len() == 0 {
        Seq::empty()
    } else if fs.last().len() > 0 && fs.last() != "."@ {
        named_segments(fs.drop_last()).push(fs.last())
    } else {
        named_segments(fs.drop_last())
    }
}

/// The final component of a Unix path (`Path::file_name`): none for a root,
/// an empty path, or a path that ends in `..`.
pub open spec fn file_name(path: Seq<char>) -> Option<Seq<char>> {
    let segs = named_segments(fields(path, '/'));
    if segs.len() == 0 || segs.last() == ".."@ {
        None
    } else {
        Some(segs.last())
    }
}

/// The name a file is uploaded under: its file name, or `unknown`.
pub fn upload_file_name(path: &str) -> (name: String)
    ensures
        name@ == match file_name(path@) {
            Some(n) => n,
            None => "unknown"@,
        },
{
    let fs = fields_vec(&chars_of(path), '/');
    let ghost all = vec_views(fs@);
    let dot = chars_of(".");
    let mut last: Option<usize> = None;
    let mut i: usize = 0;
    assert(all.take(0) =~= Seq::<Seq<char>>::empty());
    while i < fs.len()
        invariant
            i <= fs.len(),
            all == vec_views(fs@),
            dot@ == "."@,
            match last {
                Some(k) => k < i && named_segments(all.take(i as int)).len() > 0 && named_segments(
                    all.take(i as int),
                ).last() == fs@[k as int]@,
                None => named_segments(all.take(i as int)).len() == 0,
            },
        decreases fs.len() - i,
    {
        assert(all.take(i + 1).drop_last() =~= all.take(i as int));
        assert(all.take(i + 1).last() == fs@[i as int]@);
        if fs[i].len() > 0 && !crate::text::same_chars(&fs[i], &dot) {
            last = Some(i);
        }
        i += 1;
    }
    assert(all.take(fs.len() as int) =~= all);
    match last {
        Some(k) => {
            if crate::text::is_text(&fs[k], "..") {
                owned("unknown")
            } else {
                string_of(&fs[k])
            }
        },
        None => owned("unknown"),
    }
}

/// Where a file is uploaded: `<remote>:<name>`.
pub fn remote_destination(remote: &str, name: &str) -> (dest: String)
    ensures
        dest@ == remote@ + ":"@ + name@,
{
    let mut d = owned(remote);
    push_text(&mut d, ":");
    push_text(&mut d, name);
    d
}

/// One upload: the local path and where it goes on the remote.
pub open spec fn upload_of(remote: Seq<char>, path: Seq<char>) -> (Seq<char>, Seq<char>) {
    (
        path,
        remote + ":"@ + match file_name(path) {
            Some(n) => n,
            None => "unknown"@,
        },
    )
}

/// The uploads of a backup of `files` to `remote`, in the order of
/// `files`: each file is copied to `<remote>:<its file name>`. They run one
/// after the other, and the first that fails ends the backup with its
/// error.
pub fn upload_plan(remote: &str, files: &Vec<String>) -> (plan: Vec<(String, String)>)
    ensures
        plan@.len() == files@.len(),
        forall|k: int| 0 <= k < plan@.len() ==> (#[trigger] plan@[k]).0@ == upload_of(remote@, files@[k]@).0
            && plan@[k].1@ == upload_of(remote@, files@[k]@).1,
{
    let mut plan: Vec<(String, String)> = Vec::new();
    let mut i: usize = 0;
    while i < files.len()
        invariant
            i <= files.len(),
            plan@.len() == i,
            forall|k: int| 0 <= k < i ==> (#[trigger] plan@[k]).0@ == upload_of(remote@, files@[k]@).0
                && plan@[k].1@ == upload_of(remote@, files@[k]@).1,
        decreases files.len() - i,
    {
        let name = upload_file_name(files[i].as_str());
        let dest = remote_destination(remote, name.as_str());
        plan.push((files[i].clone(), dest));
        i += 1;
    }
    plan
}

} // verus!

verus! {

/// No field of `field_state` holds the separator.
proof fn lemma_field_state_no_sep(s: Seq<char>, sep: char)
    ensures
        forall|k: int, j: int|
            0 <= k < field_state(s, sep).0.len() && 0 <= j < field_state(s, sep).0[k].len() ==> #[trigger] field_state(s, sep).0[k][j] != sep,
        forall|j: int| 0 <= j < field_state(s, sep).1.len() ==> #[trigger] field_state(s, sep).1[j] != sep,
    decreases s.len(),
{
    if s.len() > 0 {
        lemma_field_state_no_sep(s.drop_last(), sep);
        let (done, cur) = field_state(s.drop_last(), sep);
        let (d2, c2) = field_state(s, sep);
        if s.last() == sep {
            assert(d2 == done.push(cur));
            assert forall|k: int, j: int| 0 <= k < d2.len() && 0 <= j < d2[k].len() implies #[trigger] d2[k][j] != sep by {
                if k < done.len() {
                    assert(d2[k] == done[k]);
                }
            }
        } else {
            assert(c2 == cur.push(s.last()));
            assert forall|j: int| 0 <= j < c2.len() implies #[trigger] c2[j] != sep by {
                if j < cur.len() {
                    assert(c2[j] == cur[j]);
                }
            }
        }
    }
}

/// Named segments are taken from the fields unchanged.
proof fn lemma_named_from_fields(fs: Seq<Seq<char>>, c: char)
    requires
        forall|k: int, j: int| 0 <= k < fs.len() && 0 <= j < fs[k].len() ==> #[trigger] fs[k][j] != c,
    ensures
        forall|k: int, j: int|
            0 <= k < named_segments(fs).len() && 0 <= j < named_segments(fs)[k].len() ==> #[trigger] named_segments(fs)[k][j] != c,
    decreases fs.len(),
{
    if fs.len() > 0 {
        let r = fs.drop_last();
        assert forall|k: int, j: int| 0 <= k < r.len() && 0 <= j < r[k].len() implies #[trigger] r[k][j] != c by {
            assert(r[k] == fs[k]);
        }
        lemma_named_from_fields(r, c);
        let n = named_segments(fs);
        if fs.last().len() > 0 && fs.last() != "."@ {
            assert(n == named_segments(r).push(fs.last()));
            assert forall|k: int, j: int| 0 <= k < n.len() && 0 <= j < n[k].len() implies #[trigger] n[k][j] != c by {
                if k < named_segments(r).len() {
                    assert(n[k] == named_segments(r)[k]);
                } else {
                    assert(n[k] == fs[fs.len() - 1]);
                }
            }
        }
    }
}

/// The name a file is uploaded under never holds a `/`, so every upload
/// lands directly in the remote's top directory.
pub proof fn law_upload_name_has_no_slash(path: Seq<char>)
    ensures
        file_name(path) matches Some(n) ==> forall|j: int| 0 <= j < n.len() ==> #[trigger] n[j] != '/',
{
    lemma_field_state_no_sep(path, '/');
    let fs = fields(path, '/');
    let (done, cur) = field_state(path, '/');
    assert forall|k: int, j: int| 0 <= k < fs.len() && 0 <= j < fs[k].len() implies #[trigger] fs[k][j] != '/' by {
        if k < done.len() {
            assert(fs[k] == done[k]);
        } else {
            assert(fs[k] == cur);
        }
    }
    lemma_named_from_fields(fs, '/');
    let segs = named_segments(fs);
    if segs.len() > 0 {
        assert forall|j: int| 0 <= j < segs.last().len() implies #[trigger] segs.last()[j] != '/' by {
            assert(segs.last() == segs[segs.len() - 1]);
        }
    }
}

} // verus!
