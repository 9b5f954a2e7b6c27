//! COSMIC desktop themes from cosmic-themes.org: the theme record, the
//! reading of the listing page, the download and install locations, and the
//! archive entry names.
use std::io::{Cursor, Read};
use vstd::prelude::*;
use crate::czkawka::{join_path, path_join};
use crate::text::{
    chars_of, decimal, fields, fields_vec, find, find_text, find_vec, has, has_text, owned,
    parse_unsigned, parse_unsigned_vec, push_decimal, push_text, starts_with, starts_with_text,
    string_of, string_views, sub_vec, trim_chars, is_text, trim_vec, u32_or_zero, vec_views,
};

verus! {

/// A theme as the theme browser shows it.
#[derive(Clone, Debug)]
pub struct CosmicTheme {
    pub id: u32,
    pub name: String,
    pub author: String,
    pub homepage: String,
    pub downloads: u32,
    pub is_dark: bool,
    pub accent_r: u8,
    pub accent_g: u8,
    pub accent_b: u8,
    pub bg_r: u8,
    pub bg_g: u8,
    pub bg_b: u8,
}

impl Default for CosmicTheme {
    fn default() -> (t: Self)
        ensures
            t.id == 0 && t.name@.len() == 0 && t.author@.len() == 0 && t.homepage@.len() == 0
                && t.downloads == 0 && !t.is_dark && t.accent_r == 0 && t.accent_g == 0
                && t.accent_b == 0 && t.bg_r == 0 && t.bg_g == 0 && t.bg_b == 0,
    {
        CosmicTheme {
            id: 0,
            name: String::new(),
            author: String::new(),
            homepage: String::new(),
            downloads: 0,
            is_dark: false,
            accent_r: 0,
            accent_g: 0,
            accent_b: 0,
            bg_r: 0,
            bg_g: 0,
            bg_b: 0,
        }
    }
}

/// How long a cached theme list is served, in seconds.
pub const CACHE_TTL_SECS: u64 = 86400;

/// Whether a cached theme list written `age_secs` seconds ago (`None`: the
/// age is unknown) is served instead of fetching: it is, while it is less
/// than a day old.
pub fn cache_is_fresh(age_secs: Option<u64>) -> (fresh: bool)
    ensures
        fresh == (age_secs is Some && age_secs->0 < CACHE_TTL_SECS),
{
    match age_secs {
        Some(a) => a < CACHE_TTL_SECS,
        None => false,
    }
}

/// The text after the first occurrence of `label`: the content of the next
/// element following a `text-end` marker, between its `>` and the next `<`,
/// trimmed.
pub open spec fn next_text_value(html: Seq<char>, label: Seq<char>) -> Option<Seq<char>> {
    match find(html, label) {
        None => None,
        Some(idx) => {
            let after = html.skip(idx);
            match find(after, "text-end"@) {
                None => None,
                Some(te) => {
                    let after_te = after.skip(te);
                    match find(after_te, ">"@) {
                        None => None,
                        Some(gt) => {
                            let rest = after_te.skip(gt + 1);
                            match find(rest, "<"@) {
                                None => None,
                                Some(lt) => {
                                    let value = trim_chars(rest.take(lt));
                                    if has(value, "<"@) {
                                        None
                                    } else {
                                        Some(value)
                                    }
                                },
                            }
                        },
                    }
                },
            }
        },
    }
}

fn skip_vec(v: &Vec<char>, k: usize) -> (r: Vec<char>)
    requires
        k <= v.len(),
    ensures
        r@ == v@.skip(k as int),
{
    let r = sub_vec(v, k, v.len());
    assert(v@.subrange(k as int, v@.len() as int) =~= v@.skip(k as int));
    r
}

/// The find result lies within the text.
proof fn lemma_find_bounds(hay: Seq<char>, needle: Seq<char>, k: int)
    requires
        0 <= k,
    ensures
        find_from(hay, needle, k) matches Some(i) ==> k <= i && i + needle.len() <= hay.len(),
    decreases hay.len() - k,
{
    if k + needle.len() > hay.len() {
    } else if occurs_at(hay, needle, k) {
    } else if k >= hay.len() {
    } else {
        lemma_find_bounds(hay, needle, k + 1);
    }
}

use crate::text::{find_from, occurs_at};

/// The value that follows `label` in a theme's info block.
pub fn extract_next_text_value(html: &str, label: &str) -> (r: Option<String>)
    ensures
        match r {
            Some(v) => next_text_value(html@, label@) == Some(v@),
            None => next_text_value(html@, label@) is None,
        },
{
    let h = chars_of(html);
    let l = chars_of(label);
    let idx = match find_vec(&h, &l) {
        Some(i) => i,
        None => return None,
    };
    proof {
        lemma_find_bounds(h@, l@, 0);
    }
    let after = skip_vec(&h, idx);
    let te = match find_text(&after, "text-end") {
        Some(i) => i,
        None => return None,
    };
    proof {
        lemma_find_bounds(after@, "text-end"@, 0);
    }
    let after_te = skip_vec(&after, te);
    let gt = match find_text(&after_te, ">") {
        Some(i) => i,
        None => return None,
    };
    proof {
        lemma_find_bounds(after_te@, ">"@, 0);
        reveal_strlit(">");
        assert(find_from(after_te@, ">"@, 0) == Some(gt as int));
        assert(gt + 1 <= after_te@.len());
    }
    assert(gt + 1 <= after_te.len());
    let rest = skip_vec(&after_te, gt + 1);
    let lt = match find_text(&rest, "<") {
        Some(i) => i,
        None => return None,
    };
    proof {
        lemma_find_bounds(rest@, "<"@, 0);
        reveal_strlit("<");
    }
    let taken = sub_vec(&rest, 0, lt);
    assert(rest@.subrange(0, lt as int) =~= rest@.take(lt as int));
    let value = trim_vec(&taken);
    if has_text(&value, "<") {
        return None;
    }
    Some(string_of(&value))
}

/// The three colour components written in a CSS declaration
/// `<var_name>: rgba(R, G, B, A)`: the first three comma-separated fields
/// inside the parentheses, trimmed; none when the declaration is absent,
/// unclosed, or has fewer than three fields.
pub open spec fn rgba_fields(css: Seq<char>, var_name: Seq<char>) -> Option<Seq<Seq<char>>> {
    let search = var_name + ": rgba("@;
    match find(css, search) {
        None => None,
        Some(start) => {
            let after = css.skip(start + search.len());
            match find(after, ")"@) {
                None => None,
                Some(end) => {
                    let parts = fields(after.take(end), ',');
                    if parts.len() >= 3 {
                        Some(seq![trim_chars(parts[0]), trim_chars(parts[1]), trim_chars(parts[2])])
                    } else {
                        None
                    }
                },
            }
        },
    }
}

/// The red, green and blue texts of the `rgba()` value of `var_name`.
pub fn rgba_components(css: &str, var_name: &str) -> (r: Option<(String, String, String)>)
    ensures
        match r {
            Some((a, b, c)) => rgba_fields(css@, var_name@) == Some(seq![a@, b@, c@]),
            None => rgba_fields(css@, var_name@) is None,
        },
{
    let mut search = owned(var_name);
    push_text(&mut search, ": rgba(");
    let s = chars_of(search.as_str());
    let v = chars_of(css);
    let start = match find_vec(&v, &s) {
        Some(i) => i,
        None => return None,
    };
    proof {
        lemma_find_bounds(v@, s@, 0);
        assert(find_from(v@, s@, 0) == Some(start as int));
    }
    assert(start + s.len() <= v.len());
    let after = skip_vec(&v, start + s.len());
    let end = match find_text(&after, ")") {
        Some(i) => i,
        None => return None,
    };
    proof {
        lemma_find_bounds(after@, ")"@, 0);
        reveal_strlit(")");
    }
    let inner = sub_vec(&after, 0, end);
    assert(after@.subrange(0, end as int) =~= after@.take(end as int));
    let parts = fields_vec(&inner, ',');
    if parts.len() < 3 {
        return None;
    }
    assert(vec_views(parts@)[0] == parts@[0]@);
    assert(vec_views(parts@)[1] == parts@[1]@);
    assert(vec_views(parts@)[2] == parts@[2]@);
    let a = string_of(&trim_vec(&parts[0]));
    let b = string_of(&trim_vec(&parts[1]));
    let c = string_of(&trim_vec(&parts[2]));
    Some((a, b, c))
}

/// The CSRF token in a theme page: the text after
/// `csrfmiddlewaretoken" value="` up to the next `"`.
pub open spec fn csrf_token(html: Seq<char>) -> Option<Seq<char>> {
    let needle = "csrfmiddlewaretoken\" value=\""@;
    match find(html, needle) {
        None => None,
        Some(i) => {
            let rest = html.skip(i + needle.len());
            match find(rest, "\""@) {
                None => None,
                Some(e) => Some(rest.take(e)),
            }
        },
    }
}

/// The CSRF token that a theme page carries.
pub fn extract_csrf(html: &str) -> (r: Option<String>)
    ensures
        match r {
            Some(t) => csrf_token(html@) == Some(t@),
            None => csrf_token(html@) is None,
        },
{
    let h = chars_of(html);
    let n = chars_of("csrfmiddlewaretoken\" value=\"");
    let i = match find_vec(&h, &n) {
        Some(i) => i,
        None => return None,
    };
    proof {
        lemma_find_bounds(h@, n@, 0);
        assert(find_from(h@, n@, 0) == Some(i as int));
    }
    assert(i + n.len() <= h.len());
    let rest = skip_vec(&h, i + n.len());
    let e = match find_text(&rest, "\"") {
        Some(e) => e,
        None => return None,
    };
    proof {
        lemma_find_bounds(rest@, "\""@, 0);
        reveal_strlit("\"");
    }
    let t = sub_vec(&rest, 0, e);
    assert(rest@.subrange(0, e as int) =~= rest@.take(e as int));
    Some(string_of(&t))
}

/// `s` without its leading `'/'` characters.
pub open spec fn trim_leading_slashes(s: Seq<char>) -> Seq<char>
    decreases s.len(),
{
    if s.len() > 0 && s[0] == '/' {
        trim_leading_slashes(s.drop_first())
    } else {
        s
    }
}

/// The index of the last `c` in `s`.
pub open spec fn last_index_of(s: Seq<char>, c: char) -> Option<int>
    decreases s.len(),
{
    if s.len() == 0 {
        None
    } else if s.last() == c {
        Some(s.len() - 1)
    } else {
        last_index_of(s.drop_last(), c)
    }
}

/// The name an archive entry is extracted under: leading slashes removed,
/// then only what follows the last remaining `/`.
pub open spec fn safe_entry_name(name: Seq<char>) -> Seq<char> {
    let stripped = trim_leading_slashes(name);
    match last_index_of(stripped, '/') {
        Some(pos) => stripped.skip(pos + 1),
        None => stripped,
    }
}

/// A name an entry can be extracted under directly inside the
/// destination: not empty, and neither `.` nor `..`.
pub open spec fn entry_name_allowed(n: Seq<char>) -> bool {
    n.len() > 0 && n != "."@ && n != ".."@
}

/// The file name an archive entry is extracted under: its last path
/// component; `None` (the entry is skipped) when that is empty, `.` or
/// `..`, so that no entry leaves the destination.
pub fn sanitize_zip_path(name: &str) -> (r: Option<String>)
    ensures
        match r {
            Some(s) => s@ == safe_entry_name(name@) && entry_name_allowed(s@),
            None => !entry_name_allowed(safe_entry_name(name@)),
        },
{
    let base = base_entry_name(name);
    let b = chars_of(base.as_str());
    if b.len() == 0 || is_text(&b, ".") || is_text(&b, "..") {
        None
    } else {
        Some(base)
    }
}

fn base_entry_name(name: &str) -> (r: String)
    ensures
        r@ == safe_entry_name(name@),
{
    let v = chars_of(name);
    let mut i: usize = 0;
    assert(v@.skip(0) =~= v@);
    while i < v.len() && v[i] == '/'
        invariant
            i <= v.len(),
            trim_leading_slashes(v@) == trim_leading_slashes(v@.skip(i as int)),
        decreases v.len() - i,
    {
        assert(v@.skip(i as int).drop_first() =~= v@.skip(i + 1));
        i += 1;
    }
    let stripped = skip_vec(&v, i);
    assert(trim_leading_slashes(stripped@) == stripped@);
    let mut j: usize = stripped.len();
    assert(stripped@.take(j as int) =~= stripped@);
    while j > 0 && stripped[j - 1] != '/'
        invariant
            j <= stripped.len(),
            last_index_of(stripped@, '/') == last_index_of(stripped@.take(j as int), '/'),
        decreases j,
    {
        assert(stripped@.take(j as int).drop_last() =~= stripped@.take(j - 1));
        j -= 1;
    }
    if j == 0 {
        assert(stripped@.take(0) =~= Seq::<char>::empty());
        string_of(&stripped)
    } else {
        assert(last_index_of(stripped@.take(j as int), '/') == Some(j - 1));
        string_of(&skip_vec(&stripped, j))
    }
}

/// A theme of the listing page, with the style text its colours are read
/// from.
#[derive(Clone, Debug)]
pub struct ThemeListing {
    pub id: u32,
    pub name: String,
    pub author: String,
    pub homepage: String,
    pub downloads: u32,
    pub is_dark: bool,
    pub style: String,
}

/// What the listing page shows of one theme section: the `id` of its
/// preview element (`None`: no preview element, or no `id`), the inner HTML
/// of its heading, its whole HTML, the target of its first `http` link, and
/// the inner HTML of its style element.
#[derive(Clone, Debug)]
pub struct ThemeParts {
    pub preview_id: Option<String>,
    pub heading: Option<String>,
    pub html: String,
    pub homepage: Option<String>,
    pub style: Option<String>,
}

/// An optional text by its view.
pub open spec fn opt_view(t: Option<String>) -> Option<Seq<char>> {
    match t {
        Some(s) => Some(s@),
        None => None,
    }
}

/// The parts of a section by their views: preview id, heading, section
/// HTML, link, style.
pub open spec fn parts_view(p: ThemeParts) -> (Option<Seq<char>>, Option<Seq<char>>, Seq<char>, Option<Seq<char>>, Option<Seq<char>>) {
    (opt_view(p.preview_id), opt_view(p.heading), p.html@, opt_view(p.homepage), opt_view(p.style))
}

/// The theme number in a preview element id `theme-preview-<n>`; 0 when the
/// id has another form.
pub open spec fn preview_number(pid: Seq<char>) -> nat {
    let prefix = "theme-preview-"@;
    if starts_with(pid, prefix) {
        match parse_unsigned(pid.skip(prefix.len() as int), u32::MAX as nat) {
            Some(n) => n,
            None => 0,
        }
    } else {
        0
    }
}

/// An optional text, empty when absent.
pub open spec fn text_or_empty(t: Option<Seq<char>>) -> Seq<char> {
    match t {
        Some(s) => s,
        None => Seq::empty(),
    }
}

/// A section is listed: it has a non-zero theme number and a non-empty name.
pub open spec fn section_listed(p: (Option<Seq<char>>, Option<Seq<char>>, Seq<char>, Option<Seq<char>>, Option<Seq<char>>)) -> bool {
    &&& (match p.0 {
        Some(pid) => preview_number(pid) != 0,
        None => false,
    })
    &&& trim_chars(text_or_empty(p.1)).len() > 0
}

/// `l` is the listing of section `p`: the theme number from the preview
/// id, the trimmed heading as name, the values after `Author` and
/// `Downloads`, the first link, and the style text with its dark flag.
pub open spec fn listing_of(l: ThemeListing, p: (Option<Seq<char>>, Option<Seq<char>>, Seq<char>, Option<Seq<char>>, Option<Seq<char>>)) -> bool {
    &&& l.id as nat == preview_number(text_or_empty(p.0))
    &&& l.name@ == trim_chars(text_or_empty(p.1))
    &&& l.author@ == match next_text_value(p.2, "Author"@) {
        Some(v) => v,
        None => Seq::empty(),
    }
    &&& l.downloads as nat == match next_text_value(p.2, "Downloads"@) {
        Some(v) => u32_or_zero(v),
        None => 0,
    }
    &&& l.homepage@ == text_or_empty(p.3)
    &&& l.style@ == text_or_empty(p.4)
    &&& l.is_dark == has(text_or_empty(p.4), "--is-dark: 1"@)
}

fn text_or_empty_exec(t: &Option<String>) -> (s: String)
    ensures
        s@ == text_or_empty(opt_view(*t)),
{
    match t {
        Some(s) => s.clone(),
        None => String::new(),
    }
}

/// The listing of one theme section; none for a section without a theme
/// number or without a name.
pub fn listing_from_parts(p: &ThemeParts) -> (r: Option<ThemeListing>)
    ensures
        match r {
            Some(l) => section_listed(parts_view(*p)) && listing_of(l, parts_view(*p)),
            None => !section_listed(parts_view(*p)),
        },
{
    let id: u32 = match &p.preview_id {
        Some(pid) => {
            let v = chars_of(pid.as_str());
            if starts_with_text(&v, "theme-preview-") {
                proof {
                    reveal_strlit("theme-preview-");
                }
                match parse_unsigned_vec(&skip_vec(&v, 14), u32::MAX as u64) {
                    Some(n) => n as u32,
                    None => 0,
                }
            } else {
                0
            }
        },
        None => 0,
    };
    assert(id as nat == preview_number(text_or_empty(opt_view(p.preview_id))));
    if id == 0 {
        return None;
    }
    let heading = text_or_empty_exec(&p.heading);
    let name = string_of(&trim_vec(&chars_of(heading.as_str())));
    let author = match extract_next_text_value(p.html.as_str(), "Author") {
        Some(a) => a,
        None => String::new(),
    };
    let downloads = match extract_next_text_value(p.html.as_str(), "Downloads") {
        Some(d) => crate::text::parse_u32_or_zero(d.as_str()),
        None => 0,
    };
    let homepage = text_or_empty_exec(&p.homepage);
    let style = text_or_empty_exec(&p.style);
    let is_dark = has_text(&chars_of(style.as_str()), "--is-dark: 1");
    if name.as_str().is_empty() {
        return None;
    }
    Some(ThemeListing { id, name, author, homepage, downloads, is_dark, style })
}

/// `s` is ordered by downloads, most first.
pub open spec fn by_downloads_desc(s: Seq<ThemeListing>) -> bool {
    forall|a: int, b: int| 0 <= a < b < s.len() ==> s[a].downloads >= s[b].downloads
}

/// `out` is `inp` reordered by `perm` (`out[k]` is `inp[perm[k]]`), ordered
/// by downloads, most first, with themes of equal downloads in their
/// order of `inp`.
pub open spec fn stable_desc_order(out: Seq<ThemeListing>, inp: Seq<ThemeListing>, perm: Seq<int>) -> bool {
    &&& out.len() == inp.len()
    &&& perm.len() == inp.len()
    &&& forall|k: int| 0 <= k < perm.len() ==> 0 <= #[trigger] perm[k] < inp.len()
    &&& forall|a: int, b: int| 0 <= a < b < perm.len() ==> perm[a] != perm[b]
    &&& forall|k: int| 0 <= k < out.len() ==> #[trigger] out[k] == inp[perm[k]]
    &&& by_downloads_desc(out)
    &&& forall|a: int, b: int|
        0 <= a < b < out.len() && out[a].downloads == out[b].downloads ==> perm[a] < perm[b]
}

/// The themes ordered by downloads, most first; themes with equal downloads
/// keep their order (`sort_by` is stable).
pub fn sort_by_downloads(themes: Vec<ThemeListing>) -> (sorted: Vec<ThemeListing>)
    ensures
        exists|perm: Seq<int>| #[trigger] stable_desc_order(sorted@, themes@, perm),
{
    let ghost orig = themes@;
    let mut input = themes;
    let mut out: Vec<ThemeListing> = Vec::new();
    let ghost mut perm: Seq<int> = Seq::empty();
    while input.len() > 0
        invariant
            input@ == orig.take(input@.len() as int),
            input@.len() <= orig.len(),
            out@.len() == perm.len(),
            perm.len() == orig.len() - input@.len(),
            forall|k: int| 0 <= k < perm.len() ==> input@.len() <= #[trigger] perm[k] < orig.len(),
            forall|a: int, b: int| 0 <= a < b < perm.len() ==> perm[a] != perm[b],
            forall|k: int| 0 <= k < out@.len() ==> #[trigger] out@[k] == orig[perm[k]],
            by_downloads_desc(out@),
            forall|a: int, b: int|
                0 <= a < b < out@.len() && out@[a].downloads == out@[b].downloads ==> perm[a]
                    < perm[b],
        decreases input.len(),
    {
        let ghost m = input@.len() as int;
        let x = input.pop().unwrap();
        assert(x == orig[m - 1]);
        assert(input@ =~= orig.take(m - 1));
        let mut p: usize = 0;
        while p < out.len() && out[p].downloads > x.downloads
            invariant
                p <= out@.len(),
                forall|j: int| 0 <= j < p ==> #[trigger] out@[j].downloads > x.downloads,
            decreases out.len() - p,
        {
            p += 1;
        }
        assert(forall|j: int| p <= j < out@.len() ==> #[trigger] out@[j].downloads <= x.downloads)
            by {
            assert forall|j: int| p <= j < out@.len() implies #[trigger] out@[j].downloads
                <= x.downloads by {
                if j > p {
                    assert(out@[p as int].downloads >= out@[j].downloads);
                }
            }
        }
        let ghost old_out = out@;
        let ghost old_perm = perm;
        out.insert(p, x);
        proof {
            perm = perm.insert(p as int, m - 1);
            assert forall|k: int| 0 <= k < out@.len() implies #[trigger] out@[k] == orig[perm[k]] by {
                if k < p {
                    assert(out@[k] == old_out[k]);
                    assert(perm[k] == old_perm[k]);
                } else if k == p {
                } else {
                    assert(out@[k] == old_out[k - 1]);
                    assert(perm[k] == old_perm[k - 1]);
                }
            }
            assert forall|k: int| 0 <= k < perm.len() implies m - 1 <= #[trigger] perm[k]
                < orig.len() by {
                if k < p {
                    assert(perm[k] == old_perm[k]);
                } else if k > p {
                    assert(perm[k] == old_perm[k - 1]);
                }
            }
            assert forall|a: int, b: int| 0 <= a < b < perm.len() implies perm[a] != perm[b] by {
                let pa = if a < p { a } else { a - 1 };
                let pb = if b < p { b } else { b - 1 };
                if a != p && b != p {
                    assert(perm[a] == old_perm[pa]);
                    assert(perm[b] == old_perm[pb]);
                } else if a == p {
                    assert(perm[b] == old_perm[pb]);
                } else {
                    assert(perm[a] == old_perm[pa]);
                }
            }
            assert forall|a: int, b: int| 0 <= a < b < out@.len() implies out@[a].downloads
                >= out@[b].downloads by {
                let pa = if a < p { a } else { a - 1 };
                let pb = if b < p { b } else { b - 1 };
                if a != p && b != p {
                    assert(out@[a] == old_out[pa]);
                    assert(out@[b] == old_out[pb]);
                } else if a == p {
                    assert(out@[b] == old_out[pb]);
                } else {
                    assert(out@[a] == old_out[pa]);
                }
            }
            assert forall|a: int, b: int|
                0 <= a < b < out@.len() && out@[a].downloads == out@[b].downloads implies perm[a]
                < perm[b] by {
                let pa = if a < p { a } else { a - 1 };
                let pb = if b < p { b } else { b - 1 };
                if a != p && b != p {
                    assert(out@[a] == old_out[pa]);
                    assert(out@[b] == old_out[pb]);
                    assert(perm[a] == old_perm[pa]);
                    assert(perm[b] == old_perm[pb]);
                } else if a == p {
                    assert(out@[b] == old_out[pb]);
                    assert(perm[b] == old_perm[pb]);
                } else {
                    assert(out@[a] == old_out[pa]);
                    assert(out@[b] == x);
                }
            }
        }
    }
    assert(stable_desc_order(out@, orig, perm));
    out
}

/// A listing is well formed: a theme number and a name.
pub open spec fn listing_well_formed(l: ThemeListing) -> bool {
    l.id != 0 && l.name@.len() > 0
}

/// `ls` are the listings of the sections `parts` that are listed, in the
/// order of the sections.
pub open spec fn listings_from(ls: Seq<ThemeListing>, parts: Seq<(Option<Seq<char>>, Option<Seq<char>>, Seq<char>, Option<Seq<char>>, Option<Seq<char>>)>) -> bool
    decreases parts.len(),
{
    if parts.len() == 0 {
        ls.len() == 0
    } else if section_listed(parts.last()) {
        &&& ls.len() > 0
        &&& listing_of(ls.last(), parts.last())
        &&& listings_from(ls.drop_last(), parts.drop_last())
    } else {
        listings_from(ls, parts.drop_last())
    }
}

/// `v` are the listings of the sections `parts`, ordered by downloads, most
/// first, listings with equal downloads in section order.
pub open spec fn sorted_listings_of(v: Seq<ThemeListing>, parts: Seq<(Option<Seq<char>>, Option<Seq<char>>, Seq<char>, Option<Seq<char>>, Option<Seq<char>>)>) -> bool {
    exists|ls: Seq<ThemeListing>, perm: Seq<int>|
        #[trigger] listings_from(ls, parts) && #[trigger] stable_desc_order(v, ls, perm)
}

/// A listing of a listed section is well formed.
proof fn lemma_listings_well_formed(ls: Seq<ThemeListing>, parts: Seq<(Option<Seq<char>>, Option<Seq<char>>, Seq<char>, Option<Seq<char>>, Option<Seq<char>>)>)
    requires
        listings_from(ls, parts),
    ensures
        forall|k: int| 0 <= k < ls.len() ==> listing_well_formed(#[trigger] ls[k]),
    decreases parts.len(),
{
    if parts.len() > 0 {
        if section_listed(parts.last()) {
            lemma_listings_well_formed(ls.drop_last(), parts.drop_last());
            assert forall|k: int| 0 <= k < ls.len() implies listing_well_formed(#[trigger] ls[k]) by {
                if k < ls.len() - 1 {
                    assert(ls[k] == ls.drop_last()[k]);
                }
            }
        } else {
            lemma_listings_well_formed(ls, parts.drop_last());
        }
    }
}

/// The parts of each theme section, by their views.
pub open spec fn all_parts_view(parts: Seq<ThemeParts>) -> Seq<(Option<Seq<char>>, Option<Seq<char>>, Seq<char>, Option<Seq<char>>, Option<Seq<char>>)> {
    parts.map_values(|p: ThemeParts| parts_view(p))
}

/// The themes of the sections `parts`: one listing per section with a theme
/// number and a name, ordered by downloads, most first, themes with equal
/// downloads in section order.
pub fn listings_from_parts(parts: &Vec<ThemeParts>) -> (v: Vec<ThemeListing>)
    ensures
        sorted_listings_of(v@, all_parts_view(parts@)),
        by_downloads_desc(v@),
        forall|k: int| 0 <= k < v@.len() ==> listing_well_formed(#[trigger] v@[k]),
{
    let ghost pv = all_parts_view(parts@);
    let mut themes: Vec<ThemeListing> = Vec::new();
    let mut i: usize = 0;
    while i < parts.len()
        invariant
            i <= parts.len(),
            pv == all_parts_view(parts@),
            listings_from(themes@, pv.take(i as int)),
        decreases parts.len() - i,
    {
        let ghost before = themes@;
        assert(pv.take(i + 1).drop_last() =~= pv.take(i as int));
        assert(pv.take(i + 1).last() == parts_view(parts@[i as int]));
        match listing_from_parts(&parts[i]) {
            Some(l) => {
                themes.push(l);
                assert(themes@.drop_last() =~= before);
            },
            None => {},
        }
        i += 1;
    }
    assert(pv.take(parts.len() as int) =~= pv);
    let ghost unsorted = themes@;
    let sorted = sort_by_downloads(themes);
    proof {
        lemma_listings_well_formed(unsorted, pv);
        let perm = choose|perm: Seq<int>| stable_desc_order(sorted@, unsorted, perm);
        assert forall|k: int| 0 <= k < sorted@.len() implies listing_well_formed(
            #[trigger] sorted@[k],
        ) by {
            assert(sorted@[k] == unsorted[perm[k]]);
        }
        assert(listings_from(unsorted, pv) && stable_desc_order(sorted@, unsorted, perm));
    }
    sorted
}

/// The HTML of each element of the document `html` that matches the CSS
/// selector `section`, in document order (`scraper::Html::parse_document`,
/// `Selector::parse`, `Html::select`, `ElementRef::html`); `None` when the
/// selector does not parse.
pub uninterp spec fn section_htmls_of(html: Seq<char>, section: Seq<char>) -> Option<Seq<Seq<char>>>;

/// For each element of `html` matching `section`, in document order, the
/// attribute `attr` of its first descendant matching `sub` (`None` when
/// there is no such descendant or it has no such attribute)
/// (`ElementRef::select`, `ElementRef::attr`); `None` when a selector does
/// not parse.
pub uninterp spec fn section_attrs_of(html: Seq<char>, section: Seq<char>, sub: Seq<char>, attr: Seq<char>) -> Option<Seq<Option<Seq<char>>>>;

/// For each element of `html` matching `section`, in document order, the
/// inner HTML of its first descendant matching `sub` (`None` when there is
/// none) (`ElementRef::select`, `ElementRef::inner_html`); `None` when a
/// selector does not parse.
pub uninterp spec fn section_inners_of(html: Seq<char>, section: Seq<char>, sub: Seq<char>) -> Option<Seq<Option<Seq<char>>>>;

/// Optional texts by their views.
pub open spec fn opt_views(r: Option<Vec<Option<String>>>) -> Option<Seq<Option<Seq<char>>>> {
    match r {
        Some(v) => Some(v@.map_values(|t: Option<String>| opt_view(t))),
        None => None,
    }
}

/// The HTML of the sections of `html` (see `section_htmls_of`).
#[verifier::external_body]
fn section_htmls(html: &str, section: &str) -> (r: Option<Vec<String>>)
    ensures
        match r {
            Some(v) => section_htmls_of(html@, section@) == Some(string_views(v@)),
            None => section_htmls_of(html@, section@) is None,
        },
{
    let section = scraper::Selector::parse(section).ok()?;
    let doc = scraper::Html::parse_document(html);
    Some(doc.select(&section).map(|s| s.html()).collect())
}

/// An attribute of the first match of `sub` in each section of `html` (see
/// `section_attrs_of`).
#[verifier::external_body]
fn section_attrs(html: &str, section: &str, sub: &str, attr: &str) -> (r: Option<Vec<Option<String>>>)
    ensures
        opt_views(r) == section_attrs_of(html@, section@, sub@, attr@),
{
    let section = scraper::Selector::parse(section).ok()?;
    let sub = scraper::Selector::parse(sub).ok()?;
    let doc = scraper::Html::parse_document(html);
    Some(doc.select(&section).map(|s| Some(s.select(&sub).next()?.attr(attr)?.to_string())).collect())
}

/// The inner HTML of the first match of `sub` in each section of `html`
/// (see `section_inners_of`).
#[verifier::external_body]
fn section_inners(html: &str, section: &str, sub: &str) -> (r: Option<Vec<Option<String>>>)
    ensures
        opt_views(r) == section_inners_of(html@, section@, sub@),
{
    let section = scraper::Selector::parse(section).ok()?;
    let sub = scraper::Selector::parse(sub).ok()?;
    let doc = scraper::Html::parse_document(html);
    Some(doc.select(&section).map(|s| Some(s.select(&sub).next()?.inner_html())).collect())
}

/// The theme sections of the listing page `html`, by their views: for each
/// `section` element, the `id` of its first `theme-preview-` element, the
/// inner HTML of its first `h3`, its own HTML, the `href` of its first
/// `http` link, and the inner HTML of its first `style`. `None` when a
/// selector does not parse or the readings disagree on the sections.
pub open spec fn page_sections(html: Seq<char>) -> Option<Seq<(Option<Seq<char>>, Option<Seq<char>>, Seq<char>, Option<Seq<char>>, Option<Seq<char>>)>> {
    match (
        section_htmls_of(html, "section"@),
        section_attrs_of(html, "section"@, "[id^='theme-preview-']"@, "id"@),
        section_inners_of(html, "section"@, "h3"@),
        section_attrs_of(html, "section"@, "a[href^='http']"@, "href"@),
        section_inners_of(html, "section"@, "style"@),
    ) {
        (Some(hs), Some(ids), Some(heads), Some(links), Some(styles)) => {
            if ids.len() == hs.len() && heads.len() == hs.len() && links.len() == hs.len()
                && styles.len() == hs.len() {
                Some(
                    Seq::new(
                        hs.len(),
                        |k: int| (ids[k], heads[k], hs[k], links[k], styles[k]),
                    ),
                )
            } else {
                None
            }
        },
        _ => None,
    }
}

fn clone_text(t: &Option<String>) -> (r: Option<String>)
    ensures
        opt_view(r) == opt_view(*t),
{
    match t {
        Some(s) => Some(s.clone()),
        None => None,
    }
}

/// The themes on the cosmic-themes.org listing page `html`: the listings
/// of the page's sections that have a theme number and a name, ordered by
/// downloads, most first, themes with equal downloads in page order.
/// `None` when a selector the page is read with does not parse.
pub fn parse_themes_html(html: &str) -> (r: Option<Vec<ThemeListing>>)
    ensures
        match page_sections(html@) {
            None => r is None,
            Some(sections) => match r {
                Some(v) => {
                    &&& sorted_listings_of(v@, sections)
                    &&& by_downloads_desc(v@)
                    &&& forall|k: int| 0 <= k < v@.len() ==> listing_well_formed(#[trigger] v@[k])
                },
                None => false,
            },
        },
{
    let hs = section_htmls(html, "section")?;
    let ids = section_attrs(html, "section", "[id^='theme-preview-']", "id")?;
    let heads = section_inners(html, "section", "h3")?;
    let links = section_attrs(html, "section", "a[href^='http']", "href")?;
    let styles = section_inners(html, "section", "style")?;
    let n = hs.len();
    if ids.len() != n || heads.len() != n || links.len() != n || styles.len() != n {
        return None;
    }
    let ghost ps = page_sections(html@)->0;
    let mut parts: Vec<ThemeParts> = Vec::new();
    let mut i: usize = 0;
    while i < n
        invariant
            i <= n,
            n == hs.len(),
            ids.len() == n && heads.len() == n && links.len() == n && styles.len() == n,
            page_sections(html@) == Some(ps),
            ps.len() == n,
            section_htmls_of(html@, "section"@) == Some(string_views(hs@)),
            section_attrs_of(html@, "section"@, "[id^='theme-preview-']"@, "id"@) == opt_views(
                Some(ids),
            ),
            section_inners_of(html@, "section"@, "h3"@) == opt_views(Some(heads)),
            section_attrs_of(html@, "section"@, "a[href^='http']"@, "href"@) == opt_views(
                Some(links),
            ),
            section_inners_of(html@, "section"@, "style"@) == opt_views(Some(styles)),
            parts@.len() == i,
            forall|k: int| 0 <= k < i ==> parts_view(#[trigger] parts@[k]) == ps[k],
        decreases n - i,
    {
        assert(string_views(hs@)[i as int] == hs@[i as int]@);
        assert(ps[i as int] == (
            opt_view(ids@[i as int]),
            opt_view(heads@[i as int]),
            hs@[i as int]@,
            opt_view(links@[i as int]),
            opt_view(styles@[i as int]),
        ));
        parts.push(ThemeParts {
            preview_id: clone_text(&ids[i]),
            heading: clone_text(&heads[i]),
            html: hs[i].clone(),
            homepage: clone_text(&links[i]),
            style: clone_text(&styles[i]),
        });
        i += 1;
    }
    assert(all_parts_view(parts@) =~= ps);
    Some(listings_from_parts(&parts))
}

/// The page of theme `id`.
pub fn theme_page_url(id: u32) -> (u: String)
    ensures
        u@ == "https://cosmic-themes.org/"@ + decimal(id as nat) + "/"@,
{
    let mut u = owned("https://cosmic-themes.org/");
    push_decimal(&mut u, id as u64);
    push_text(&mut u, "/");
    u
}

/// The download endpoint of theme `id`.
pub fn theme_download_url(id: u32) -> (u: String)
    ensures
        u@ == "https://cosmic-themes.org/"@ + decimal(id as nat) + "/download/"@,
{
    let mut u = owned("https://cosmic-themes.org/");
    push_decimal(&mut u, id as u64);
    push_text(&mut u, "/download/");
    u
}

/// Where theme `name` is installed: `themes/cosmic/<name>` under the user's
/// data directory (`None`: unknown, then `/tmp`).
pub fn theme_install_dir(data_dir: Option<&str>, name: &str) -> (d: String)
    ensures
        d@ == path_join(
            path_join(
                path_join(
                    match data_dir {
                        Some(b) => b@,
                        None => "/tmp"@,
                    },
                    "themes"@,
                ),
                "cosmic"@,
            ),
            name@,
        ),
{
    let base = match data_dir {
        Some(b) => b,
        None => "/tmp",
    };
    let t = join_path(base, "themes");
    let c = join_path(t.as_str(), "cosmic");
    join_path(c.as_str(), name)
}

/// Whether downloaded bytes are a zip archive (they begin with `PK`);
/// otherwise they are taken for a gzipped tarball.
pub fn is_zip_archive(bytes: &[u8]) -> (zip: bool)
    ensures
        zip == (bytes@.len() >= 2 && bytes@[0] == 0x50u8 && bytes@[1] == 0x4bu8),
{
    bytes.len() >= 2 && bytes[0] == 0x50u8 && bytes[1] == 0x4bu8
}


/// The entries of the zip archive `bytes` that read, in archive order:
/// each entry's stored name, whether it is a directory, and its
/// decompressed content (`zip::ZipArchive::new`, then `by_index` and
/// reading each entry); reading stops at the first error, whose message is
/// the second component (`None`: every entry was read).
pub uninterp spec fn zip_entries_of(bytes: Seq<u8>) -> (Seq<(Seq<char>, bool, Seq<u8>)>, Option<Seq<char>>);

/// An archive entry by its views.
pub open spec fn entry_view(e: (String, bool, Vec<u8>)) -> (Seq<char>, bool, Seq<u8>) {
    (e.0@, e.1, e.2@)
}

/// Archive entries by their views.
pub open spec fn entries_view(v: Vec<(String, bool, Vec<u8>)>) -> Seq<(Seq<char>, bool, Seq<u8>)> {
    v@.map_values(|e: (String, bool, Vec<u8>)| entry_view(e))
}

/// The entries of the zip archive `bytes` (`zip::ZipArchive`) up to the
/// first that cannot be read: name, directory flag and content of each, in
/// archive order, and the error that stopped the reading.
#[verifier::external_body]
fn zip_entries(bytes: &[u8]) -> (r: (Vec<(String, bool, Vec<u8>)>, Option<String>))
    ensures
        (entries_view(r.0), opt_view(r.1)) == zip_entries_of(bytes@),
{
    let mut entries = Vec::new();
    let mut archive = match zip::ZipArchive::new(Cursor::new(bytes)) {
        Ok(a) => a,
        Err(e) => return (entries, Some(e.to_string())),
    };
    for i in 0..archive.len() {
        let mut data = Vec::new();
        let read = archive.by_index(i).map_err(|e| e.to_string()).and_then(|mut f| {
            f.read_to_end(&mut data).map_err(|e| e.to_string())?;
            Ok((f.name().to_string(), f.is_dir()))
        });
        match read { Ok((name, dir)) => entries.push((name, dir, data)), Err(e) => return (entries, Some(e)) }
    }
    (entries, None)
}

/// What extracting `entries` writes: each entry whose name is allowed,
/// under its last path component (`safe_entry_name`), in archive order;
/// the other entries are skipped.
pub open spec fn safe_writes(entries: Seq<(Seq<char>, bool, Seq<u8>)>) -> Seq<(Seq<char>, bool, Seq<u8>)>
    decreases entries.len(),
{
    if entries.len() == 0 {
        Seq::empty()
    } else {
        let e = entries.last();
        let rest = safe_writes(entries.drop_last());
        if entry_name_allowed(safe_entry_name(e.0)) {
            rest.push((safe_entry_name(e.0), e.1, e.2))
        } else {
            rest
        }
    }
}

/// What extracting the zip archive `bytes` into a directory writes: for
/// each entry read before the first error, its name reduced by
/// `sanitize_zip_path`, whether it is a directory, and its content; entries
/// whose name reduces to nothing, `.` or `..` are skipped. The second
/// component is the error that stopped the reading (`None`: the whole
/// archive was read); the entries before it are written all the same.
pub fn archive_writes(bytes: &[u8]) -> (r: (Vec<(String, bool, Vec<u8>)>, Option<String>))
    ensures
        entries_view(r.0) == safe_writes(zip_entries_of(bytes@).0),
        opt_view(r.1) == zip_entries_of(bytes@).1,
{
    let (mut entries, error) = zip_entries(bytes);
    let ghost all = entries@.map_values(|e: (String, bool, Vec<u8>)| entry_view(e));
    let ghost n = entries.len() as int;
    let mut out: Vec<(String, bool, Vec<u8>)> = Vec::new();
    while entries.len() > 0
        invariant
            entries.len() <= n,
            all.len() == n,
            entries@.map_values(|e: (String, bool, Vec<u8>)| entry_view(e)) == all.skip(
                n - entries.len(),
            ),
            out@.map_values(|e: (String, bool, Vec<u8>)| entry_view(e)) == safe_writes(
                all.take(n - entries.len()),
            ),
        decreases entries.len(),
    {
        let ghost k = n - entries.len();
        let ghost before = out@;
        let ghost rest_before = entries@;
        let (name, is_dir, data) = entries.remove(0);
        assert(all[k] == (name@, is_dir, data@)) by {
            assert(rest_before.map_values(|e: (String, bool, Vec<u8>)| entry_view(e))[0] == all.skip(
                k,
            )[0]);
        }
        assert forall|j: int| 0 <= j < entries@.len() implies entry_view(#[trigger] entries@[j])
            == all[k + 1 + j] by {
            assert(entries@[j] == rest_before[j + 1]);
            assert(rest_before.map_values(|e: (String, bool, Vec<u8>)| entry_view(e))[j + 1]
                == all.skip(k)[j + 1]);
        }
        assert(entries@.map_values(|e: (String, bool, Vec<u8>)| entry_view(e)) =~= all.skip(k + 1));
        assert(all.take(k + 1).drop_last() =~= all.take(k));
        assert(all.take(k + 1).last() == all[k]);
        match sanitize_zip_path(name.as_str()) {
            Some(safe) => {
                out.push((safe, is_dir, data));
                assert(out@.map_values(|e: (String, bool, Vec<u8>)| entry_view(e)) =~= before.map_values(
                    |e: (String, bool, Vec<u8>)| entry_view(e),
                ).push((safe_entry_name(name@), is_dir, data@)));
            },
            None => {},
        }
    }
    assert(all.take(n) =~= all);
    (out, error)
}

} // verus!

verus! {

/// After the last `c` in `s`, there is no `c`; with no last `c`, none at all.
proof fn lemma_last_index(s: Seq<char>, c: char)
    ensures
        match last_index_of(s, c) {
            Some(p) => 0 <= p < s.len() && s[p] == c && forall|j: int| p < j < s.len() ==> s[j] != c,
            None => forall|j: int| 0 <= j < s.len() ==> s[j] != c,
        },
    decreases s.len(),
{
    if s.len() > 0 && s.last() != c {
        lemma_last_index(s.drop_last(), c);
        assert forall|j: int| 0 <= j < s.len() - 1 implies s[j] == s.drop_last()[j] by {}
    }
}

/// Removing leading slashes leaves a suffix of the name.
proof fn lemma_trim_leading_suffix(s: Seq<char>)
    ensures
        trim_leading_slashes(s).len() <= s.len(),
        trim_leading_slashes(s) == s.skip(s.len() - trim_leading_slashes(s).len()),
    decreases s.len(),
{
    if s.len() > 0 && s[0] == '/' {
        lemma_trim_leading_suffix(s.drop_first());
        let t = trim_leading_slashes(s.drop_first());
        assert(s.drop_first().skip(s.drop_first().len() - t.len()) =~= s.skip(s.len() - t.len()));
    } else {
        assert(s.skip(0) =~= s);
    }
}

/// An archive entry that is extracted lands directly inside the
/// destination: its name is a final part of the entry's name, is not
/// empty, is neither `.` nor `..`, and holds no `/`.
pub proof fn law_entry_name_stays_inside(name: Seq<char>)
    requires
        entry_name_allowed(safe_entry_name(name)),
    ensures
        safe_entry_name(name).len() > 0,
        safe_entry_name(name) != "."@,
        safe_entry_name(name) != ".."@,
        forall|j: int| 0 <= j < safe_entry_name(name).len() ==> #[trigger] safe_entry_name(name)[j] != '/',
        safe_entry_name(name) == name.skip(name.len() - safe_entry_name(name).len()),
{
    let stripped = trim_leading_slashes(name);
    lemma_last_index(stripped, '/');
    lemma_trim_leading_suffix(name);
    match last_index_of(stripped, '/') {
        Some(pos) => {
            assert forall|j: int| 0 <= j < safe_entry_name(name).len() implies #[trigger] safe_entry_name(
                name,
            )[j] != '/' by {
                assert(safe_entry_name(name)[j] == stripped[pos + 1 + j]);
            }
            assert(stripped.skip(pos + 1) =~= name.skip(name.len() - safe_entry_name(name).len()));
        },
        None => {},
    }
}

} // verus!

verus! {

/// `find_from` finds `needle` exactly when it occurs at or after `k`.
proof fn lemma_find_from_occurs(hay: Seq<char>, needle: Seq<char>, k: int)
    requires
        0 <= k,
    ensures
        find_from(hay, needle, k) is Some <==> exists|i: int| k <= i && #[trigger] occurs_at(hay, needle, i),
    decreases hay.len() - k,
{
    if k + needle.len() > hay.len() {
        assert forall|i: int| k <= i implies !#[trigger] occurs_at(hay, needle, i) by {}
    } else if occurs_at(hay, needle, k) {
    } else if k >= hay.len() {
        assert(hay.subrange(k, k) =~= needle);
    } else {
        lemma_find_from_occurs(hay, needle, k + 1);
        if exists|i: int| k <= i && #[trigger] occurs_at(hay, needle, i) {
            let i = choose|i: int| k <= i && #[trigger] occurs_at(hay, needle, i);
            assert(i != k);
            assert(k + 1 <= i && occurs_at(hay, needle, i));
        }
    }
}

/// A listed theme is dark exactly when its style text holds
/// `--is-dark: 1` somewhere: a style that says `--is-dark: 0`, or nothing
/// about darkness, gives a light theme.
pub proof fn law_dark_exactly_when_style_says_so(
    l: ThemeListing,
    p: (Option<Seq<char>>, Option<Seq<char>>, Seq<char>, Option<Seq<char>>, Option<Seq<char>>),
)
    requires
        listing_of(l, p),
    ensures
        l.is_dark <==> exists|i: int| #[trigger] occurs_at(text_or_empty(p.4), "--is-dark: 1"@, i),
{
    lemma_find_from_occurs(text_or_empty(p.4), "--is-dark: 1"@, 0);
}

} // verus!
