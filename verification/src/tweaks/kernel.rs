//! Kernel parameters: transparent huge pages, sysctl paths, version string.
use vstd::prelude::*;
use crate::text::{
    chars_of, fields, fields_vec, owned, parse_u32_or_zero, push_text, replace_char,
    replace_char_vec, string_of, sub_vec, trim_chars, trim_vec, u32_or_zero, vec_views, words,
    words_vec,
};

verus! {

/// A word in brackets, as sysfs marks the active choice (`[madvise]`).
pub open spec fn is_bracketed(w: Seq<char>) -> bool {
    w.len() > 0 && w[0] == '[' && w.last() == ']'
}

/// The text of the first bracketed word among `ws`, without its brackets.
pub open spec fn first_bracketed(ws: Seq<Seq<char>>) -> Option<Seq<char>>
    decreases ws.len(),
{
    if ws.len() == 0 {
        None
    } else if is_bracketed(ws[0]) {
        Some(ws[0].subrange(1, ws[0].len() - 1))
    } else {
        first_bracketed(ws.drop_first())
    }
}

/// The choice that a sysfs choice list marks as active.
pub fn bracketed_choice(content: &Vec<char>) -> (r: Option<Vec<char>>)
    ensures
        match r {
            Some(w) => first_bracketed(words(content@)) == Some(w@),
            None => first_bracketed(words(content@)) is None,
        },
{
    let ws = words_vec(content);
    let ghost all = vec_views(ws@);
    let mut i: usize = 0;
    assert(all.skip(0) =~= all);
    while i < ws.len()
        invariant
            i <= ws.len(),
            all == vec_views(ws@),
            all == words(content@),
            first_bracketed(all) == first_bracketed(all.skip(i as int)),
        decreases ws.len() - i,
    {
        let w = &ws[i];
        assert(all.skip(i as int)[0] == w@);
        if w.len() > 0 && w[0] == '[' && w[w.len() - 1] == ']' {
            return Some(sub_vec(w, 1, w.len() - 1));
        }
        assert(all.skip(i as int).drop_first() =~= all.skip(i + 1));
        i += 1;
    }
    None
}

/// The transparent huge page mode: the bracketed choice, or `madvise`.
pub open spec fn thp_mode(content: Seq<char>) -> Seq<char> {
    match first_bracketed(words(content)) {
        Some(m) => m,
        None => "madvise"@,
    }
}

/// The transparent huge page mode from `transparent_hugepage/enabled`.
pub fn read_thp(content: &str) -> (mode: String)
    ensures
        mode@ == thp_mode(content@),
{
    match bracketed_choice(&chars_of(content)) {
        Some(m) => string_of(&m),
        None => owned("madvise"),
    }
}

/// The file under `/proc/sys` that holds the sysctl `key`.
pub open spec fn sysctl_file(key: Seq<char>) -> Seq<char> {
    "/proc/sys/"@ + replace_char(key, '.', "/"@)
}

/// The path of the sysctl `key` (`vm.swappiness` → `/proc/sys/vm/swappiness`).
pub fn sysctl_path(key: &str) -> (path: String)
    ensures
        path@ == sysctl_file(key@),
{
    let mut p = owned("/proc/sys/");
    let rest = replace_char_vec(&chars_of(key), '.', "/");
    push_text(&mut p, rest.as_str());
    p
}

/// A sysctl value from the content of its `/proc/sys` file: the trimmed
/// text read as a `u32`, or 0.
pub fn read_sysctl_value(content: &str) -> (v: u32)
    ensures
        v as nat == u32_or_zero(content@),
{
    parse_u32_or_zero(content)
}

/// The release from `/proc/version`: its third space-separated field, or the
/// whole content trimmed when there are fewer than three.
pub open spec fn version_of(content: Seq<char>) -> Seq<char> {
    let f = fields(content, ' ');
    if f.len() >= 3 {
        f[2]
    } else {
        trim_chars(content)
    }
}

/// The kernel release named in the content of `/proc/version`.
pub fn kernel_version(content: &str) -> (v: String)
    ensures
        v@ == version_of(content@),
{
    let c = chars_of(content);
    let f = fields_vec(&c, ' ');
    if f.len() >= 3 {
        assert(vec_views(f@)[2] == f@[2]@);
        string_of(&f[2])
    } else {
        string_of(&trim_vec(&c))
    }
}

} // verus!
