//! Integration with the czkawka file analysis tools: which tool to use,
//! the scan modes, the command line for a scan and the parsing of its
//! output.
use vstd::prelude::*;
use crate::text::{
    chars_of, has, has_text, is_text, lines, lines_vec, owned, push_text, starts_with,
    starts_with_text, string_of, string_views, trim_chars, trim_vec, vec_views,
};

verus! {

/// Which czkawka tools were found on the system.
#[derive(Clone, Debug)]
pub struct CzkawkaAvailability {
    pub krokiet_path: Option<String>,
    pub cli_path: Option<String>,
}

impl Default for CzkawkaAvailability {
    fn default() -> (a: Self)
        ensures
            a.krokiet_path is None,
            a.cli_path is None,
    {
        CzkawkaAvailability { krokiet_path: None, cli_path: None }
    }
}

impl CzkawkaAvailability {
    /// Whether either tool was found.
    pub fn is_any_available(&self) -> (r: bool)
        ensures
            r == (self.krokiet_path is Some || self.cli_path is Some),
    {
        self.krokiet_path.is_some() || self.cli_path.is_some()
    }

    /// The tool to use: krokiet when present, else the command-line tool.
    pub fn preferred_tool(&self) -> (r: Option<&str>)
        ensures
            match r {
                Some(p) => match self.krokiet_path {
                    Some(k) => p@ == k@,
                    None => self.cli_path is Some && p@ == self.cli_path->0@,
                },
                None => self.krokiet_path is None && self.cli_path is None,
            },
    {
        match &self.krokiet_path {
            Some(k) => Some(k.as_str()),
            None => match &self.cli_path {
                Some(c) => Some(c.as_str()),
                None => None,
            },
        }
    }
}

/// A tool's location from `which <name>` (`None`: the command failed) or,
/// failing that, from the cargo install directory (`None`: not there).
pub open spec fn binary_location(which_out: Option<Seq<char>>, cargo_bin: Option<Seq<char>>) -> Option<Seq<char>> {
    match which_out {
        Some(o) if trim_chars(o).len() > 0 => Some(trim_chars(o)),
        _ => cargo_bin,
    }
}

/// Where a tool was found: the trimmed output of a successful `which`, when
/// not empty, else the cargo install path that exists.
pub fn find_binary(which_out: Option<&str>, cargo_bin: Option<String>) -> (r: Option<String>)
    ensures
        match r {
            Some(p) => binary_location(
                match which_out {
                    Some(o) => Some(o@),
                    None => None,
                },
                match cargo_bin {
                    Some(c) => Some(c@),
                    None => None,
                },
            ) == Some(p@),
            None => binary_location(
                match which_out {
                    Some(o) => Some(o@),
                    None => None,
                },
                match cargo_bin {
                    Some(c) => Some(c@),
                    None => None,
                },
            ) is None,
        },
{
    if let Some(o) = which_out {
        let t = trim_vec(&chars_of(o));
        if t.len() > 0 {
            return Some(string_of(&t));
        }
    }
    cargo_bin
}

/// `base` joined with the relative or absolute path `part`, as
/// `Path::join` does on Unix.
pub open spec fn path_join(base: Seq<char>, part: Seq<char>) -> Seq<char> {
    if part.len() > 0 && part[0] == '/' {
        part
    } else if base.len() > 0 && base.last() != '/' {
        base + "/"@ + part
    } else {
        base + part
    }
}

/// `Path::join` on Unix paths.
pub fn join_path(base: &str, part: &str) -> (r: String)
    ensures
        r@ == path_join(base@, part@),
{
    let p = chars_of(part);
    if p.len() > 0 && p[0] == '/' {
        return owned(part);
    }
    let b = chars_of(base);
    let mut r = owned(base);
    if b.len() > 0 && b[b.len() - 1] != '/' {
        push_text(&mut r, "/");
    }
    push_text(&mut r, part);
    r
}

/// The cargo install location of tool `name` under the home directory.
pub fn cargo_bin_path(home: &str, name: &str) -> (r: String)
    ensures
        r@ == path_join(path_join(home@, ".cargo/bin"@), name@),
{
    let dir = join_path(home, ".cargo/bin");
    join_path(dir.as_str(), name)
}

/// The tools found: krokiet, and the command-line tool under either of its
/// names, `czkawka_cli` first.
pub fn detect_tools(krokiet: Option<String>, czkawka_cli: Option<String>, czkawka: Option<String>) -> (a: CzkawkaAvailability)
    ensures
        a.krokiet_path == krokiet,
        a.cli_path == (if czkawka_cli is Some {
            czkawka_cli
        } else {
            czkawka
        }),
{
    CzkawkaAvailability {
        krokiet_path: krokiet,
        cli_path: match czkawka_cli {
            Some(c) => Some(c),
            None => czkawka,
        },
    }
}

/// The kinds of scan that the czkawka tools offer.
#[derive(Clone, Copy, Debug, PartialEq, Eq, Structural)]
pub enum ScanMode {
    DuplicateFiles,
    EmptyFiles,
    EmptyDirectories,
    SimilarImages,
    SimilarVideos,
    SameMusic,
    InvalidSymlinks,
    BrokenFiles,
    BadExtensions,
    BigFiles,
    TemporaryFiles,
}

/// The name of a scan mode shown to the user.
pub open spec fn mode_label(m: ScanMode) -> Seq<char> {
    match m {
        ScanMode::DuplicateFiles => "Duplicate Files"@,
        ScanMode::EmptyFiles => "Empty Files"@,
        ScanMode::EmptyDirectories => "Empty Directories"@,
        ScanMode::SimilarImages => "Similar Images"@,
        ScanMode::SimilarVideos => "Similar Videos"@,
        ScanMode::SameMusic => "Same Music"@,
        ScanMode::InvalidSymlinks => "Invalid Symlinks"@,
        ScanMode::BrokenFiles => "Broken Files"@,
        ScanMode::BadExtensions => "Bad Extensions"@,
        ScanMode::BigFiles => "Big Files"@,
        ScanMode::TemporaryFiles => "Temporary Files"@,
    }
}

/// The icon of a scan mode.
pub open spec fn mode_icon(m: ScanMode) -> Seq<char> {
    match m {
        ScanMode::DuplicateFiles => "📄"@,
        ScanMode::EmptyFiles => "📭"@,
        ScanMode::EmptyDirectories => "📂"@,
        ScanMode::SimilarImages => "🖼"@,
        ScanMode::SimilarVideos => "🎬"@,
        ScanMode::SameMusic => "🎵"@,
        ScanMode::InvalidSymlinks => "🔗"@,
        ScanMode::BrokenFiles => "💔"@,
        ScanMode::BadExtensions => "🏷"@,
        ScanMode::BigFiles => "📦"@,
        ScanMode::TemporaryFiles => "🗑"@,
    }
}

/// The `czkawka_cli` subcommand of a scan mode.
pub open spec fn mode_subcommand(m: ScanMode) -> Seq<char> {
    match m {
        ScanMode::DuplicateFiles => "dup"@,
        ScanMode::EmptyFiles => "empty-files"@,
        ScanMode::EmptyDirectories => "empty-folders"@,
        ScanMode::SimilarImages => "image"@,
        ScanMode::SimilarVideos => "video"@,
        ScanMode::SameMusic => "music"@,
        ScanMode::InvalidSymlinks => "symlinks"@,
        ScanMode::BrokenFiles => "broken"@,
        ScanMode::BadExtensions => "ext"@,
        ScanMode::BigFiles => "big"@,
        ScanMode::TemporaryFiles => "temp"@,
    }
}

impl ScanMode {
    /// Human-readable name shown in the UI.
    pub fn label(&self) -> (r: &'static str)
        ensures
            r@ == mode_label(*self),
    {
        match self {
            ScanMode::DuplicateFiles => "Duplicate Files",
            ScanMode::EmptyFiles => "Empty Files",
            ScanMode::EmptyDirectories => "Empty Directories",
            ScanMode::SimilarImages => "Similar Images",
            ScanMode::SimilarVideos => "Similar Videos",
            ScanMode::SameMusic => "Same Music",
            ScanMode::InvalidSymlinks => "Invalid Symlinks",
            ScanMode::BrokenFiles => "Broken Files",
            ScanMode::BadExtensions => "Bad Extensions",
            ScanMode::BigFiles => "Big Files",
            ScanMode::TemporaryFiles => "Temporary Files",
        }
    }

    /// Icon for this mode.
    pub fn icon(&self) -> (r: &'static str)
        ensures
            r@ == mode_icon(*self),
    {
        match self {
            ScanMode::DuplicateFiles => "📄",
            ScanMode::EmptyFiles => "📭",
            ScanMode::EmptyDirectories => "📂",
            ScanMode::SimilarImages => "🖼",
            ScanMode::SimilarVideos => "🎬",
            ScanMode::SameMusic => "🎵",
            ScanMode::InvalidSymlinks => "🔗",
            ScanMode::BrokenFiles => "💔",
            ScanMode::BadExtensions => "🏷",
            ScanMode::BigFiles => "📦",
            ScanMode::TemporaryFiles => "🗑",
        }
    }

    /// The `czkawka_cli` subcommand that runs this scan.
    pub fn cli_subcommand(&self) -> (r: &'static str)
        ensures
            r@ == mode_subcommand(*self),
    {
        match self {
            ScanMode::DuplicateFiles => "dup",
            ScanMode::EmptyFiles => "empty-files",
            ScanMode::EmptyDirectories => "empty-folders",
            ScanMode::SimilarImages => "image",
            ScanMode::SimilarVideos => "video",
            ScanMode::SameMusic => "music",
            ScanMode::InvalidSymlinks => "symlinks",
            ScanMode::BrokenFiles => "broken",
            ScanMode::BadExtensions => "ext",
            ScanMode::BigFiles => "big",
            ScanMode::TemporaryFiles => "temp",
        }
    }
}

/// The scan mode that a UI mode name selects; unknown names select
/// duplicate files.
pub open spec fn mode_named(s: Seq<char>) -> ScanMode {
    if s == "dup"@ || s == "duplicates"@ {
        ScanMode::DuplicateFiles
    } else if s == "empty-files"@ {
        ScanMode::EmptyFiles
    } else if s == "empty-dirs"@ {
        ScanMode::EmptyDirectories
    } else if s == "similar-images"@ || s == "image"@ {
        ScanMode::SimilarImages
    } else if s == "similar-videos"@ || s == "video"@ {
        ScanMode::SimilarVideos
    } else if s == "same-music"@ || s == "music"@ {
        ScanMode::SameMusic
    } else if s == "symlinks"@ {
        ScanMode::InvalidSymlinks
    } else if s == "broken"@ {
        ScanMode::BrokenFiles
    } else if s == "bad-ext"@ || s == "ext"@ {
        ScanMode::BadExtensions
    } else if s == "big"@ {
        ScanMode::BigFiles
    } else if s == "temp"@ {
        ScanMode::TemporaryFiles
    } else {
        ScanMode::DuplicateFiles
    }
}

/// The scan mode named by a UI mode string.
pub fn parse_scan_mode(s: &str) -> (m: ScanMode)
    ensures
        m == mode_named(s@),
{
    let v = chars_of(s);
    if is_text(&v, "dup") || is_text(&v, "duplicates") {
        ScanMode::DuplicateFiles
    } else if is_text(&v, "empty-files") {
        ScanMode::EmptyFiles
    } else if is_text(&v, "empty-dirs") {
        ScanMode::EmptyDirectories
    } else if is_text(&v, "similar-images") || is_text(&v, "image") {
        ScanMode::SimilarImages
    } else if is_text(&v, "similar-videos") || is_text(&v, "video") {
        ScanMode::SimilarVideos
    } else if is_text(&v, "same-music") || is_text(&v, "music") {
        ScanMode::SameMusic
    } else if is_text(&v, "symlinks") {
        ScanMode::InvalidSymlinks
    } else if is_text(&v, "broken") {
        ScanMode::BrokenFiles
    } else if is_text(&v, "bad-ext") || is_text(&v, "ext") {
        ScanMode::BadExtensions
    } else if is_text(&v, "big") {
        ScanMode::BigFiles
    } else if is_text(&v, "temp") {
        ScanMode::TemporaryFiles
    } else {
        ScanMode::DuplicateFiles
    }
}

/// The arguments of a `czkawka_cli` run: the mode's subcommand, then
/// `-d <dir>` for each directory.
pub open spec fn scan_args(m: ScanMode, dirs: Seq<Seq<char>>) -> Seq<Seq<char>>
    decreases dirs.len(),
{
    if dirs.len() == 0 {
        seq![mode_subcommand(m)]
    } else {
        scan_args(m, dirs.drop_last()).push("-d"@).push(dirs.last())
    }
}

/// The command-line arguments for a scan of `dirs` in mode `mode`.
pub fn cli_scan_args(mode: ScanMode, dirs: &Vec<String>) -> (args: Vec<String>)
    ensures
        string_views(args@) == scan_args(mode, string_views(dirs@)),
{
    let mut args: Vec<String> = Vec::new();
    args.push(owned(mode.cli_subcommand()));
    let ghost ds = string_views(dirs@);
    assert(string_views(args@) =~= scan_args(mode, ds.take(0)));
    let mut i: usize = 0;
    while i < dirs.len()
        invariant
            i <= dirs.len(),
            ds == string_views(dirs@),
            string_views(args@) == scan_args(mode, ds.take(i as int)),
        decreases dirs.len() - i,
    {
        let ghost before = args@;
        args.push(owned("-d"));
        args.push(dirs[i].clone());
        assert(ds.take(i + 1).drop_last() =~= ds.take(i as int));
        assert(string_views(args@) =~= string_views(before).push("-d"@).push(dirs@[i as int]@));
        i += 1;
    }
    assert(ds.take(dirs.len() as int) =~= ds);
    args
}

/// A group of files reported together (for example, a set of duplicates).
#[derive(Clone, Debug)]
pub struct ResultGroup {
    pub files: Vec<String>,
}

/// A trimmed output line names a file: it begins with `/` or holds a `\`.
pub open spec fn is_path_line(t: Seq<char>) -> bool {
    starts_with(t, "/"@) || has(t, "\\"@)
}

/// Reading the output lines in order: the groups completed so far and the
/// group still being read. A blank line ends a group; other lines that
/// name a file join the current group; the rest are ignored.
pub open spec fn group_state(ls: Seq<Seq<char>>) -> (Seq<Seq<Seq<char>>>, Seq<Seq<char>>)
    decreases ls.len(),
{
    if ls.len() == 0 {
        (Seq::empty(), Seq::empty())
    } else {
        let (done, cur) = group_state(ls.drop_last());
        let t = trim_chars(ls.last());
        if t.len() == 0 {
            if cur.len() > 0 {
                (done.push(cur), Seq::empty())
            } else {
                (done, cur)
            }
        } else if is_path_line(t) {
            (done, cur.push(t))
        } else {
            (done, cur)
        }
    }
}

/// The groups of files in the text output of `czkawka_cli`.
pub open spec fn cli_groups(output: Seq<char>) -> Seq<Seq<Seq<char>>> {
    let (done, cur) = group_state(lines(output));
    if cur.len() > 0 {
        done.push(cur)
    } else {
        done
    }
}

/// The file lists of result groups.
pub open spec fn group_views(g: Seq<ResultGroup>) -> Seq<Seq<Seq<char>>> {
    g.map_values(|r: ResultGroup| string_views(r.files@))
}

/// The groups of files that a `czkawka_cli` run printed.
pub fn parse_cli_output(output: &str) -> (groups: Vec<ResultGroup>)
    ensures
        group_views(groups@) == cli_groups(output@),
{
    let ls = lines_vec(&chars_of(output));
    let ghost all = vec_views(ls@);
    let mut groups: Vec<ResultGroup> = Vec::new();
    let mut current: Vec<String> = Vec::new();
    let mut i: usize = 0;
    assert(all.take(0) =~= Seq::<Seq<char>>::empty());
    while i < ls.len()
        invariant
            i <= ls.len(),
            all == vec_views(ls@),
            (group_views(groups@), string_views(current@)) == group_state(all.take(i as int)),
        decreases ls.len() - i,
    {
        assert(all.take(i + 1).drop_last() =~= all.take(i as int));
        assert(all.take(i + 1).last() == ls@[i as int]@);
        let t = trim_vec(&ls[i]);
        if t.len() == 0 {
            if current.len() > 0 {
                let ghost before = groups@;
                let g = ResultGroup { files: current };
                groups.push(g);
                assert(group_views(groups@) =~= group_views(before).push(string_views(g.files@)));
                current = Vec::new();
                assert(string_views(current@) =~= Seq::<Seq<char>>::empty());
            }
        } else if starts_with_text(&t, "/") || has_text(&t, "\\") {
            let ghost before = current@;
            current.push(string_of(&t));
            assert(string_views(current@) =~= string_views(before).push(t@));
        }
        i += 1;
    }
    assert(all.take(ls.len() as int) =~= all);
    if current.len() > 0 {
        let ghost before = groups@;
        let g = ResultGroup { files: current };
        groups.push(g);
        assert(group_views(groups@) =~= group_views(before).push(string_views(g.files@)));
    }
    groups
}

/// The message shown when neither tool is installed.
pub open spec fn install_hint_text() -> Seq<char> {
    "Neither krokiet nor czkawka_cli was found.\nInstall via:\n  cargo install krokiet --locked\nor download from: https://github.com/qarmin/czkawka/releases"@
}

/// A human-friendly install hint.
pub fn install_hint() -> (r: String)
    ensures
        r@ == install_hint_text(),
{
    owned(
        "Neither krokiet nor czkawka_cli was found.\nInstall via:\n  cargo install krokiet --locked\nor download from: https://github.com/qarmin/czkawka/releases",
    )
}

/// All scan modes, in the order of the krokiet sidebar.
pub open spec fn scan_mode_order() -> Seq<ScanMode> {
    seq![
        ScanMode::DuplicateFiles,
        ScanMode::EmptyFiles,
        ScanMode::EmptyDirectories,
        ScanMode::SimilarImages,
        ScanMode::SimilarVideos,
        ScanMode::SameMusic,
        ScanMode::InvalidSymlinks,
        ScanMode::BrokenFiles,
        ScanMode::BadExtensions,
        ScanMode::BigFiles,
        ScanMode::TemporaryFiles,
    ]
}

/// All available scan modes, in the order of the krokiet sidebar.
pub fn all_scan_modes() -> (modes: Vec<ScanMode>)
    ensures
        modes@ == scan_mode_order(),
{
    let v = vec![
        ScanMode::DuplicateFiles,
        ScanMode::EmptyFiles,
        ScanMode::EmptyDirectories,
        ScanMode::SimilarImages,
        ScanMode::SimilarVideos,
        ScanMode::SameMusic,
        ScanMode::InvalidSymlinks,
        ScanMode::BrokenFiles,
        ScanMode::BadExtensions,
        ScanMode::BigFiles,
        ScanMode::TemporaryFiles,
    ];
    assert(v@ =~= scan_mode_order());
    v
}

} // verus!

verus! {

/// A tool is available exactly when there is a preferred tool.
pub proof fn law_available_iff_preferred(a: CzkawkaAvailability)
    ensures
        (a.krokiet_path is Some || a.cli_path is Some) <==> (match a.krokiet_path {
            Some(_) => true,
            None => a.cli_path is Some,
        }),
{
}

/// The mode named by a mode's own subcommand is that mode, for every mode
/// but `EmptyDirectories`, whose subcommand `empty-folders` is not a UI
/// mode name and so selects duplicate files.
pub proof fn law_subcommand_names_mode(m: ScanMode)
    ensures
        m != ScanMode::EmptyDirectories ==> mode_named(mode_subcommand(m)) == m,
        mode_named(mode_subcommand(ScanMode::EmptyDirectories)) == ScanMode::DuplicateFiles,
{
    let lits = seq![
        "dup"@,
        "duplicates"@,
        "empty-files"@,
        "empty-dirs"@,
        "empty-folders"@,
        "similar-images"@,
        "image"@,
        "similar-videos"@,
        "video"@,
        "same-music"@,
        "music"@,
        "symlinks"@,
        "broken"@,
        "bad-ext"@,
        "ext"@,
        "big"@,
        "temp"@,
    ];
    reveal_strlit("dup");
    reveal_strlit("duplicates");
    reveal_strlit("empty-files");
    reveal_strlit("empty-dirs");
    reveal_strlit("empty-folders");
    reveal_strlit("similar-images");
    reveal_strlit("image");
    reveal_strlit("similar-videos");
    reveal_strlit("video");
    reveal_strlit("same-music");
    reveal_strlit("music");
    reveal_strlit("symlinks");
    reveal_strlit("broken");
    reveal_strlit("bad-ext");
    reveal_strlit("ext");
    reveal_strlit("big");
    reveal_strlit("temp");
    assert forall|i: int| 0 <= i < lits.len() implies #[trigger] signature(lits[i]) == signature(
        lits[i],
    ) && lits[i].len() >= 3 by {}
    let x = mode_subcommand(m);
    assert(signature(x) == signature(x));
    assert forall|i: int| 0 <= i < lits.len() && signature(lits[i]) != signature(x) implies #[trigger] lits[i] != x by {}
}

/// The length, first two and last characters of a text.
pub open spec fn signature(s: Seq<char>) -> (nat, char, char, char) {
    (s.len(), s[0], s[1], s.last())
}

/// Different modes have different subcommands.
pub proof fn law_subcommands_distinct(a: ScanMode, b: ScanMode)
    ensures
        a != b ==> mode_subcommand(a) != mode_subcommand(b),
{
    if a != b && mode_subcommand(a) == mode_subcommand(b) {
        reveal_strlit("dup");
        reveal_strlit("empty-files");
        reveal_strlit("empty-folders");
        reveal_strlit("image");
        reveal_strlit("video");
        reveal_strlit("music");
        reveal_strlit("symlinks");
        reveal_strlit("broken");
        reveal_strlit("ext");
        reveal_strlit("big");
        reveal_strlit("temp");
        assert(mode_subcommand(a).len() == mode_subcommand(b).len());
        assert(mode_subcommand(a)[0] == mode_subcommand(b)[0]);
        assert(mode_subcommand(a)[1] == mode_subcommand(b)[1]);
        assert(mode_subcommand(a).last() == mode_subcommand(b).last());
    }
}

/// The list of all scan modes holds every mode exactly once.
pub proof fn law_all_modes_listed(m: ScanMode)
    ensures
        scan_mode_order().contains(m),
        scan_mode_order().len() == 11,
        forall|i: int, j: int|
            0 <= i < j < scan_mode_order().len() ==> scan_mode_order()[i] != scan_mode_order()[j],
{
    let o = scan_mode_order();
    match m {
        ScanMode::DuplicateFiles => assert(o[0] == m),
        ScanMode::EmptyFiles => assert(o[1] == m),
        ScanMode::EmptyDirectories => assert(o[2] == m),
        ScanMode::SimilarImages => assert(o[3] == m),
        ScanMode::SimilarVideos => assert(o[4] == m),
        ScanMode::SameMusic => assert(o[5] == m),
        ScanMode::InvalidSymlinks => assert(o[6] == m),
        ScanMode::BrokenFiles => assert(o[7] == m),
        ScanMode::BadExtensions => assert(o[8] == m),
        ScanMode::BigFiles => assert(o[9] == m),
        ScanMode::TemporaryFiles => assert(o[10] == m),
    }
}

/// What `group_state` holds: non-empty groups of trimmed lines that name
/// files.
proof fn lemma_group_state_paths(ls: Seq<Seq<char>>)
    ensures
        forall|k: int| 0 <= k < group_state(ls).0.len() ==> #[trigger] group_state(ls).0[k].len() > 0,
        forall|k: int, j: int|
            0 <= k < group_state(ls).0.len() && 0 <= j < group_state(ls).0[k].len() ==> is_path_line(
                #[trigger] group_state(ls).0[k][j],
            ),
        forall|j: int| 0 <= j < group_state(ls).1.len() ==> is_path_line(#[trigger] group_state(ls).1[j]),
    decreases ls.len(),
{
    if ls.len() > 0 {
        lemma_group_state_paths(ls.drop_last());
        let (done, cur) = group_state(ls.drop_last());
        let (d2, c2) = group_state(ls);
        let t = trim_chars(ls.last());
        if t.len() == 0 {
            if cur.len() > 0 {
                assert(d2 == done.push(cur));
                assert forall|k: int| 0 <= k < d2.len() implies #[trigger] d2[k].len() > 0 by {
                    if k < done.len() {
                        assert(d2[k] == done[k]);
                    }
                }
                assert forall|k: int, j: int| 0 <= k < d2.len() && 0 <= j < d2[k].len() implies is_path_line(
                    #[trigger] d2[k][j],
                ) by {
                    if k < done.len() {
                        assert(d2[k] == done[k]);
                    }
                }
            }
        } else if is_path_line(t) {
            assert(c2 == cur.push(t));
            assert forall|j: int| 0 <= j < c2.len() implies is_path_line(#[trigger] c2[j]) by {
                if j < cur.len() {
                    assert(c2[j] == cur[j]);
                }
            }
        }
    }
}

/// Every group that `parse_cli_output` reports is non-empty, and every file
/// in it is an output line that begins with `/` or holds a `\`.
pub proof fn law_cli_groups_are_paths(output: Seq<char>)
    ensures
        forall|k: int| 0 <= k < cli_groups(output).len() ==> #[trigger] cli_groups(output)[k].len() > 0,
        forall|k: int, j: int|
            0 <= k < cli_groups(output).len() && 0 <= j < cli_groups(output)[k].len() ==> is_path_line(
                #[trigger] cli_groups(output)[k][j],
            ),
{
    lemma_group_state_paths(lines(output));
}

} // verus!
