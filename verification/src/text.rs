//! Text primitives: whitespace, trimming, splitting, searching, and
//! decimal conversion, each stated over the character sequence of a string.
use vstd::prelude::*;
use vstd::string::StringExecFns;

verus! {

// ───────────────────────────── Specifications ─────────────────────────────

/// The characters that `char::is_whitespace` accepts (Unicode `White_Space`).
pub open spec fn is_ws(c: char) -> bool {
    let u = c as u32;
    ||| 9 <= u <= 13
    ||| u == 32
    ||| u == 0x85
    ||| u == 0xa0
    ||| u == 0x1680
    ||| 0x2000 <= u <= 0x200a
    ||| u == 0x2028
    ||| u == 0x2029
    ||| u == 0x202f
    ||| u == 0x205f
    ||| u == 0x3000
}

/// `s` with its leading whitespace removed (`str::trim_start`).
pub open spec fn trim_start_chars(s: Seq<char>) -> Seq<char>
    decreases s.len(),
{
    if s.len() > 0 && is_ws(s[0]) {
        trim_start_chars(s.drop_first())
    } else {
        s
    }
}

/// `s` with its trailing whitespace removed (`str::trim_end`).
pub open spec fn trim_end_chars(s: Seq<char>) -> Seq<char>
    decreases s.len(),
{
    if s.len() > 0 && is_ws(s.last()) {
        trim_end_chars(s.drop_last())
    } else {
        s
    }
}

/// `s` with whitespace removed at both ends (`str::trim`).
pub open spec fn trim_chars(s: Seq<char>) -> Seq<char> {
    trim_end_chars(trim_start_chars(s))
}

/// Reading `s` left to right, the whitespace-separated words completed so far
/// and the word still being read.
pub open spec fn ws_state(s: Seq<char>) -> (Seq<Seq<char>>, Seq<char>)
    decreases s.len(),
{
    if s.len() == 0 {
        (Seq::empty(), Seq::empty())
    } else {
        let (done, cur) = ws_state(s.drop_last());
        if is_ws(s.last()) {
            (if cur.len() > 0 { done.push(cur) } else { done }, Seq::empty())
        } else {
            (done, cur.push(s.last()))
        }
    }
}

/// The words of `s` (`str::split_whitespace`): maximal runs of
/// non-whitespace characters, in order.
pub open spec fn words(s: Seq<char>) -> Seq<Seq<char>> {
    let (done, cur) = ws_state(s);
    if cur.len() > 0 {
        done.push(cur)
    } else {
        done
    }
}

/// A line without its `'\r'`, when the line ended with `"\r\n"`.
pub open spec fn strip_cr(line: Seq<char>) -> Seq<char> {
    if line.len() > 0 && line.last() == '\r' {
        line.drop_last()
    } else {
        line
    }
}

/// Reading `s` left to right, the lines ended by `'\n'` so far and the
/// line still being read.
pub open spec fn line_state(s: Seq<char>) -> (Seq<Seq<char>>, Seq<char>)
    decreases s.len(),
{
    if s.len() == 0 {
        (Seq::empty(), Seq::empty())
    } else {
        let (done, cur) = line_state(s.drop_last());
        if s.last() == '\n' {
            (done.push(strip_cr(cur)), Seq::empty())
        } else {
            (done, cur.push(s.last()))
        }
    }
}

/// The lines of `s` (`str::lines`): split at `'\n'`, each line without a
/// `'\r'` that preceded its `'\n'`, and no empty line after a final `'\n'`.
pub open spec fn lines(s: Seq<char>) -> Seq<Seq<char>> {
    let (done, cur) = line_state(s);
    if cur.len() > 0 {
        done.push(cur)
    } else {
        done
    }
}

/// Reading `s` left to right, the fields ended by `sep` so far and the field
/// still being read.
pub open spec fn field_state(s: Seq<char>, sep: char) -> (Seq<Seq<char>>, Seq<char>)
    decreases s.len(),
{
    if s.len() == 0 {
        (Seq::empty(), Seq::empty())
    } else {
        let (done, cur) = field_state(s.drop_last(), sep);
        if s.last() == sep {
            (done.push(cur), Seq::empty())
        } else {
            (done, cur.push(s.last()))
        }
    }
}

/// The fields of `s` between occurrences of `sep` (`str::split` with a
/// `char`); there is always one more field than there are separators.
pub open spec fn fields(s: Seq<char>, sep: char) -> Seq<Seq<char>> {
    let (done, cur) = field_state(s, sep);
    done.push(cur)
}

/// `needle` occurs in `hay` starting at index `i`.
pub open spec fn occurs_at(hay: Seq<char>, needle: Seq<char>, i: int) -> bool {
    0 <= i && i + needle.len() <= hay.len() && hay.subrange(i, i + needle.len()) == needle
}

/// The first index at or after `k` where `needle` occurs in `hay`.
pub open spec fn find_from(hay: Seq<char>, needle: Seq<char>, k: int) -> Option<int>
    decreases hay.len() - k,
{
    if k < 0 || k + needle.len() > hay.len() {
        None
    } else if occurs_at(hay, needle, k) {
        Some(k)
    } else if k >= hay.len() {
        None
    } else {
        find_from(hay, needle, k + 1)
    }
}

/// The first index where `needle` occurs in `hay` (`str::find`, counted in
/// characters).
pub open spec fn find(hay: Seq<char>, needle: Seq<char>) -> Option<int> {
    find_from(hay, needle, 0)
}

/// `needle` occurs somewhere in `hay` (`str::contains`).
pub open spec fn has(hay: Seq<char>, needle: Seq<char>) -> bool {
    find(hay, needle) is Some
}

/// `s` begins with `p` (`str::starts_with`).
pub open spec fn starts_with(s: Seq<char>, p: Seq<char>) -> bool {
    p.len() <= s.len() && s.take(p.len() as int) == p
}

/// `s` ends with `p` (`str::ends_with`).
pub open spec fn ends_with(s: Seq<char>, p: Seq<char>) -> bool {
    p.len() <= s.len() && s.skip(s.len() - p.len()) == p
}

/// `c` is an ASCII decimal digit.
pub open spec fn is_digit(c: char) -> bool {
    '0' <= c && c <= '9'
}

/// Every character of `s` is an ASCII decimal digit.
pub open spec fn all_digits(s: Seq<char>) -> bool {
    forall|i: int| 0 <= i < s.len() ==> is_digit(#[trigger] s[i])
}

/// The number that the decimal digits `s` denote.
pub open spec fn digits_value(s: Seq<char>) -> nat
    decreases s.len(),
{
    if s.len() == 0 {
        0
    } else {
        digits_value(s.drop_last()) * 10 + ((s.last() as u32) - ('0' as u32)) as nat
    }
}

/// What `str::parse` gives for an unsigned integer type whose largest value
/// is `max`: an optional `'+'`, then one or more ASCII digits, denoting a
/// value no larger than `max`.
pub open spec fn parse_unsigned(s: Seq<char>, max: nat) -> Option<nat> {
    let d = if s.len() > 0 && s[0] == '+' { s.drop_first() } else { s };
    if d.len() > 0 && all_digits(d) && digits_value(d) <= max {
        Some(digits_value(d))
    } else {
        None
    }
}

/// `s.trim().parse::<u64>().unwrap_or(0)`.
pub open spec fn u64_or_zero(s: Seq<char>) -> nat {
    match parse_unsigned(trim_chars(s), u64::MAX as nat) {
        Some(n) => n,
        None => 0,
    }
}

/// `s.trim().parse::<u32>().unwrap_or(0)`.
pub open spec fn u32_or_zero(s: Seq<char>) -> nat {
    match parse_unsigned(trim_chars(s), u32::MAX as nat) {
        Some(n) => n,
        None => 0,
    }
}

/// The ASCII digit for `d < 10`.
pub open spec fn digit_char(d: nat) -> char {
    if d == 0 {
        '0'
    } else if d == 1 {
        '1'
    } else if d == 2 {
        '2'
    } else if d == 3 {
        '3'
    } else if d == 4 {
        '4'
    } else if d == 5 {
        '5'
    } else if d == 6 {
        '6'
    } else if d == 7 {
        '7'
    } else if d == 8 {
        '8'
    } else {
        '9'
    }
}

/// The decimal representation of `n`, without leading zeros (`u64`'s
/// `Display`).
pub open spec fn decimal(n: nat) -> Seq<char>
    decreases n,
{
    if n < 10 {
        seq![digit_char(n)]
    } else {
        decimal(n / 10).push(digit_char(n % 10))
    }
}

/// `s` with every `from` replaced by `to` (`str::replace` with a `char`).
pub open spec fn replace_char(s: Seq<char>, from: char, to: Seq<char>) -> Seq<char>
    decreases s.len(),
{
    if s.len() == 0 {
        Seq::empty()
    } else {
        replace_char(s.drop_last(), from, to) + if s.last() == from {
            to
        } else {
            seq![s.last()]
        }
    }
}

/// The character sequences of a sequence of strings.
pub open spec fn string_views(v: Seq<String>) -> Seq<Seq<char>> {
    v.map_values(|x: String| x@)
}

/// The character sequences of a sequence of optional strings.
pub open spec fn option_views(v: Seq<Option<String>>) -> Seq<Option<Seq<char>>> {
    v.map_values(|x: Option<String>| match x {
        Some(s) => Some(s@),
        None => None,
    })
}

/// The character sequences of a sequence of character vectors.
pub open spec fn vec_views(v: Seq<Vec<char>>) -> Seq<Seq<char>> {
    v.map_values(|x: Vec<char>| x@)
}

// ───────────────────────────── Executable code ────────────────────────────

/// Appends one character to a `String` (std's `String::push`).
#[verifier::external_body]
pub(crate) fn push_char(s: &mut String, c: char)
    ensures
        final(s)@ == old(s)@.push(c),
{
    s.push(c);
}

/// Appends `t` to `s`.
pub(crate) fn push_text(s: &mut String, t: &str)
    ensures
        final(s)@ == old(s)@ + t@,
{
    s.append(t);
}

/// An owned copy of `t`.
pub fn owned(t: &str) -> (s: String)
    ensures
        s@ == t@,
{
    t.to_owned()
}

/// The characters of `s`, in order.
pub fn chars_of(s: &str) -> (v: Vec<char>)
    ensures
        v@ == s@,
{
    let mut v: Vec<char> = Vec::new();
    for c in it: s.chars()
        invariant
            v@ == it.seq().take(it.index() as int),
            it.seq() == s@,
    {
        v.push(c);
    }
    v
}

/// A `String` holding `v[lo..hi]`.
pub fn string_of_range(v: &Vec<char>, lo: usize, hi: usize) -> (s: String)
    requires
        lo <= hi <= v.len(),
    ensures
        s@ == v@.subrange(lo as int, hi as int),
{
    let mut s = String::new();
    let mut i = lo;
    while i < hi
        invariant
            lo <= i <= hi <= v.len(),
            s@ == v@.subrange(lo as int, i as int),
        decreases hi - i,
    {
        push_char(&mut s, v[i]);
        assert(v@.subrange(lo as int, i + 1) =~= v@.subrange(lo as int, i as int).push(v@[i as int]));
        i += 1;
    }
    s
}

/// A `String` holding the characters of `v`.
pub fn string_of(v: &Vec<char>) -> (s: String)
    ensures
        s@ == v@,
{
    let s = string_of_range(v, 0, v.len());
    assert(v@.subrange(0, v@.len() as int) =~= v@);
    s
}

/// `v[lo..hi]` as a vector.
pub fn sub_vec(v: &Vec<char>, lo: usize, hi: usize) -> (r: Vec<char>)
    requires
        lo <= hi <= v.len(),
    ensures
        r@ == v@.subrange(lo as int, hi as int),
{
    let mut r: Vec<char> = Vec::new();
    let mut i = lo;
    while i < hi
        invariant
            lo <= i <= hi <= v.len(),
            r@ == v@.subrange(lo as int, i as int),
        decreases hi - i,
    {
        r.push(v[i]);
        assert(v@.subrange(lo as int, i + 1) =~= v@.subrange(lo as int, i as int).push(v@[i as int]));
        i += 1;
    }
    r
}

/// Whether `c` is whitespace (`char::is_whitespace`).
pub fn is_whitespace(c: char) -> (b: bool)
    ensures
        b == is_ws(c),
{
    let u = c as u32;
    (9 <= u && u <= 13) || u == 32 || u == 0x85 || u == 0xa0 || u == 0x1680 || (0x2000 <= u && u
        <= 0x200a) || u == 0x2028 || u == 0x2029 || u == 0x202f || u == 0x205f || u == 0x3000
}

/// Whether two character sequences are equal.
pub fn same_chars(a: &Vec<char>, b: &Vec<char>) -> (r: bool)
    ensures
        r == (a@ == b@),
{
    if a.len() != b.len() {
        return false;
    }
    let mut i: usize = 0;
    while i < a.len()
        invariant
            a.len() == b.len(),
            i <= a.len(),
            forall|j: int| 0 <= j < i ==> a@[j] == b@[j],
        decreases a.len() - i,
    {
        if a[i] != b[i] {
            return false;
        }
        i += 1;
    }
    assert(a@ =~= b@);
    true
}

/// Whether `s` equals the text `lit`.
pub fn is_text(s: &Vec<char>, lit: &str) -> (r: bool)
    ensures
        r == (s@ == lit@),
{
    let l = chars_of(lit);
    same_chars(s, &l)
}

/// The words of `v` (`str::split_whitespace`).
pub fn words_vec(v: &Vec<char>) -> (r: Vec<Vec<char>>)
    ensures
        vec_views(r@) == words(v@),
{
    let mut done: Vec<Vec<char>> = Vec::new();
    let mut cur: Vec<char> = Vec::new();
    let mut i: usize = 0;
    assert(v@.take(0) =~= Seq::<char>::empty());
    while i < v.len()
        invariant
            i <= v.len(),
            (vec_views(done@), cur@) == ws_state(v@.take(i as int)),
        decreases v.len() - i,
    {
        assert(v@.take(i + 1).drop_last() =~= v@.take(i as int));
        let c = v[i];
        if is_whitespace(c) {
            if cur.len() > 0 {
                let ghost before = done@;
                done.push(cur);
                assert(vec_views(done@) =~= vec_views(before).push(cur@));
            }
            cur = Vec::new();
        } else {
            cur.push(c);
        }
        i += 1;
    }
    assert(v@.take(v.len() as int) =~= v@);
    if cur.len() > 0 {
        let ghost before = done@;
        done.push(cur);
        assert(vec_views(done@) =~= vec_views(before).push(cur@));
    }
    done
}

/// The lines of `v` (`str::lines`).
pub fn lines_vec(v: &Vec<char>) -> (r: Vec<Vec<char>>)
    ensures
        vec_views(r@) == lines(v@),
{
    let mut done: Vec<Vec<char>> = Vec::new();
    let mut cur: Vec<char> = Vec::new();
    let mut i: usize = 0;
    assert(v@.take(0) =~= Seq::<char>::empty());
    while i < v.len()
        invariant
            i <= v.len(),
            (vec_views(done@), cur@) == line_state(v@.take(i as int)),
        decreases v.len() - i,
    {
        assert(v@.take(i + 1).drop_last() =~= v@.take(i as int));
        let c = v[i];
        if c == '\n' {
            if cur.len() > 0 && cur[cur.len() - 1] == '\r' {
                cur.pop();
            }
            let ghost before = done@;
            done.push(cur);
            assert(vec_views(done@) =~= vec_views(before).push(done@.last()@));
            cur = Vec::new();
        } else {
            cur.push(c);
        }
        i += 1;
    }
    assert(v@.take(v.len() as int) =~= v@);
    if cur.len() > 0 {
        let ghost before = done@;
        done.push(cur);
        assert(vec_views(done@) =~= vec_views(before).push(cur@));
    }
    done
}

/// The fields of `v` between occurrences of `sep` (`str::split`).
pub fn fields_vec(v: &Vec<char>, sep: char) -> (r: Vec<Vec<char>>)
    ensures
        vec_views(r@) == fields(v@, sep),
{
    let mut done: Vec<Vec<char>> = Vec::new();
    let mut cur: Vec<char> = Vec::new();
    let mut i: usize = 0;
    assert(v@.take(0) =~= Seq::<char>::empty());
    while i < v.len()
        invariant
            i <= v.len(),
            (vec_views(done@), cur@) == field_state(v@.take(i as int), sep),
        decreases v.len() - i,
    {
        assert(v@.take(i + 1).drop_last() =~= v@.take(i as int));
        let c = v[i];
        if c == sep {
            let ghost before = done@;
            done.push(cur);
            assert(vec_views(done@) =~= vec_views(before).push(done@.last()@));
            cur = Vec::new();
        } else {
            cur.push(c);
        }
        i += 1;
    }
    assert(v@.take(v.len() as int) =~= v@);
    let ghost before = done@;
    done.push(cur);
    assert(vec_views(done@) =~= vec_views(before).push(done@.last()@));
    done
}

/// Whether `needle` occurs in `hay` at index `i`.
pub fn occurs_at_exec(hay: &Vec<char>, needle: &Vec<char>, i: usize) -> (r: bool)
    ensures
        r == occurs_at(hay@, needle@, i as int),
{
    if needle.len() > hay.len() || i > hay.len() - needle.len() {
        return false;
    }
    let mut j: usize = 0;
    while j < needle.len()
        invariant
            i + needle.len() <= hay.len(),
            j <= needle.len(),
            forall|k: int| 0 <= k < j ==> hay@[i + k] == needle@[k],
        decreases needle.len() - j,
    {
        if hay[i + j] != needle[j] {
            assert(hay@.subrange(i as int, i + needle.len())[j as int] != needle@[j as int]);
            return false;
        }
        j += 1;
    }
    assert(hay@.subrange(i as int, i + needle.len()) =~= needle@);
    true
}

/// The first index where `needle` occurs in `hay` (`str::find`).
pub fn find_vec(hay: &Vec<char>, needle: &Vec<char>) -> (r: Option<usize>)
    ensures
        match r {
            Some(i) => find(hay@, needle@) == Some(i as int),
            None => find(hay@, needle@) is None,
        },
{
    let mut k: usize = 0;
    while k <= hay.len()
        invariant
            find(hay@, needle@) == find_from(hay@, needle@, k as int),
        decreases hay.len() + 1 - k,
    {
        if needle.len() > hay.len() || k > hay.len() - needle.len() {
            return None;
        }
        if occurs_at_exec(hay, needle, k) {
            return Some(k);
        }
        if k == hay.len() {
            return None;
        }
        k += 1;
    }
    None
}

/// The first index where the text `lit` occurs in `hay`.
pub fn find_text(hay: &Vec<char>, lit: &str) -> (r: Option<usize>)
    ensures
        match r {
            Some(i) => find(hay@, lit@) == Some(i as int),
            None => find(hay@, lit@) is None,
        },
{
    let n = chars_of(lit);
    find_vec(hay, &n)
}

/// Whether the text `lit` occurs in `hay` (`str::contains`).
pub fn has_text(hay: &Vec<char>, lit: &str) -> (r: bool)
    ensures
        r == has(hay@, lit@),
{
    find_text(hay, lit).is_some()
}

/// Whether `s` begins with the text `lit` (`str::starts_with`).
pub fn starts_with_text(s: &Vec<char>, lit: &str) -> (r: bool)
    ensures
        r == starts_with(s@, lit@),
{
    let p = chars_of(lit);
    if p.len() > s.len() {
        return false;
    }
    let r = occurs_at_exec(s, &p, 0);
    assert(s@.subrange(0, p@.len() as int) =~= s@.take(p@.len() as int));
    r
}

/// Whether `s` ends with the text `lit` (`str::ends_with`).
pub fn ends_with_text(s: &Vec<char>, lit: &str) -> (r: bool)
    ensures
        r == ends_with(s@, lit@),
{
    let p = chars_of(lit);
    if p.len() > s.len() {
        return false;
    }
    let r = occurs_at_exec(s, &p, s.len() - p.len());
    assert(s@.subrange(s.len() - p.len(), s.len() - p.len() + p@.len()) =~= s@.skip(
        s@.len() - p@.len(),
    ));
    r
}

/// The value of a prefix of a digit string never exceeds the value of the
/// whole.
pub proof fn lemma_digits_value_prefix(s: Seq<char>, k: int)
    requires
        0 <= k <= s.len(),
        all_digits(s),
    ensures
        digits_value(s.take(k)) <= digits_value(s),
    decreases s.len(),
{
    if k < s.len() {
        assert(all_digits(s.drop_last()));
        assert(s.drop_last().take(k) =~= s.take(k));
        lemma_digits_value_prefix(s.drop_last(), k);
    } else {
        assert(s.take(k) =~= s);
    }
}

/// `v` read as an unsigned integer no larger than `max` (`str::parse`).
pub fn parse_unsigned_vec(v: &Vec<char>, max: u64) -> (r: Option<u64>)
    ensures
        match r {
            Some(n) => parse_unsigned(v@, max as nat) == Some(n as nat),
            None => parse_unsigned(v@, max as nat) is None,
        },
{
    let start: usize = if v.len() > 0 && v[0] == '+' { 1 } else { 0 };
    let ghost d = if v@.len() > 0 && v@[0] == '+' { v@.drop_first() } else { v@ };
    assert(d =~= v@.skip(start as int));
    if start == v.len() {
        return None;
    }
    let mut acc: u64 = 0;
    let mut i: usize = start;
    assert(d.take(0) =~= Seq::<char>::empty());
    while i < v.len()
        invariant
            start <= i <= v.len(),
            d =~= v@.skip(start as int),
            d == (if v@.len() > 0 && v@[0] == '+' { v@.drop_first() } else { v@ }),
            all_digits(d.take(i - start)),
            acc as nat == digits_value(d.take(i - start)),
            acc <= max,
        decreases v.len() - i,
    {
        let c = v[i];
        assert(d[i - start] == c);
        if !('0' <= c && c <= '9') {
            assert(!is_digit(d[i - start]));
            assert(!all_digits(d));
            return None;
        }
        let dv = (c as u32 - '0' as u32) as u64;
        assert(d.take(i - start + 1).drop_last() =~= d.take(i - start));
        assert(all_digits(d.take(i - start + 1)));
        if dv > max || acc > (max - dv) / 10 {
            let ghost val = digits_value(d.take(i - start + 1));
            assert(val == acc * 10 + dv);
            assert(val > max) by (nonlinear_arith)
                requires
                    val == acc * 10 + dv,
                    dv > max || acc > (max - dv) / 10,
                    acc >= 0,
            {
            }
            proof {
                if all_digits(d) {
                    lemma_digits_value_prefix(d, i - start + 1);
                }
            }
            return None;
        }
        acc = acc * 10 + dv;
        i += 1;
    }
    assert(d.take(i - start) =~= d);
    Some(acc)
}

/// `v.trim().parse::<u64>().unwrap_or(0)`.
pub fn u64_or_zero_vec(v: &Vec<char>) -> (n: u64)
    ensures
        n as nat == u64_or_zero(v@),
{
    let t = trim_vec(v);
    match parse_unsigned_vec(&t, u64::MAX) {
        Some(n) => n,
        None => 0,
    }
}

/// `s.trim().parse::<u64>().unwrap_or(0)`.
pub fn parse_u64_or_zero(s: &str) -> (n: u64)
    ensures
        n as nat == u64_or_zero(s@),
{
    u64_or_zero_vec(&chars_of(s))
}

/// `s.trim().parse::<u32>().unwrap_or(0)`.
pub fn parse_u32_or_zero(s: &str) -> (n: u32)
    ensures
        n as nat == u32_or_zero(s@),
{
    let t = trim_vec(&chars_of(s));
    match parse_unsigned_vec(&t, u32::MAX as u64) {
        Some(n) => n as u32,
        None => 0,
    }
}

/// Appends the decimal representation of `n` to `out`.
pub fn push_decimal(out: &mut String, n: u64)
    ensures
        final(out)@ == old(out)@ + decimal(n as nat),
    decreases n,
{
    if n >= 10 {
        push_decimal(out, n / 10);
    }
    let d = n % 10;
    let c = if d == 0 {
        '0'
    } else if d == 1 {
        '1'
    } else if d == 2 {
        '2'
    } else if d == 3 {
        '3'
    } else if d == 4 {
        '4'
    } else if d == 5 {
        '5'
    } else if d == 6 {
        '6'
    } else if d == 7 {
        '7'
    } else if d == 8 {
        '8'
    } else {
        '9'
    };
    push_char(out, c);
}

/// Strings holding the character vectors of `v`, in order.
pub fn strings_of(v: &Vec<Vec<char>>) -> (r: Vec<String>)
    ensures
        string_views(r@) == vec_views(v@),
{
    let mut r: Vec<String> = Vec::new();
    let mut i: usize = 0;
    while i < v.len()
        invariant
            i <= v.len(),
            string_views(r@) == vec_views(v@.take(i as int)),
        decreases v.len() - i,
    {
        let s = string_of(&v[i]);
        let ghost before = r@;
        r.push(s);
        assert(string_views(r@) =~= string_views(before).push(s@));
        assert(vec_views(v@.take(i + 1)) =~= vec_views(v@.take(i as int)).push(v@[i as int]@));
        i += 1;
    }
    assert(v@.take(v.len() as int) =~= v@);
    r
}

/// The words of `s` (`str::split_whitespace`), as strings.
pub fn words_of(s: &str) -> (r: Vec<String>)
    ensures
        string_views(r@) == words(s@),
{
    let w = words_vec(&chars_of(s));
    strings_of(&w)
}

/// `v` with every `from` replaced by the text `to` (`str::replace`).
pub fn replace_char_vec(v: &Vec<char>, from: char, to: &str) -> (r: String)
    ensures
        r@ == replace_char(v@, from, to@),
{
    let mut r = String::new();
    let mut i: usize = 0;
    assert(v@.take(0) =~= Seq::<char>::empty());
    while i < v.len()
        invariant
            i <= v.len(),
            r@ == replace_char(v@.take(i as int), from, to@),
        decreases v.len() - i,
    {
        assert(v@.take(i + 1).drop_last() =~= v@.take(i as int));
        if v[i] == from {
            push_text(&mut r, to);
        } else {
            push_char(&mut r, v[i]);
            assert(r@ =~= replace_char(v@.take(i as int), from, to@) + seq![v@[i as int]]);
        }
        i += 1;
    }
    assert(v@.take(v.len() as int) =~= v@);
    r
}

/// `v` without leading and trailing whitespace (`str::trim`).
pub fn trim_vec(v: &Vec<char>) -> (r: Vec<char>)
    ensures
        r@ == trim_chars(v@),
{
    let mut i: usize = 0;
    assert(v@.skip(0) =~= v@);
    while i < v.len() && is_whitespace(v[i])
        invariant
            i <= v.len(),
            trim_start_chars(v@) == trim_start_chars(v@.skip(i as int)),
        decreases v.len() - i,
    {
        assert(v@.skip(i as int).drop_first() =~= v@.skip(i + 1));
        i += 1;
    }
    let ghost t = v@.skip(i as int);
    assert(trim_start_chars(t) == t);
    let mut j: usize = v.len();
    while j > i && is_whitespace(v[j - 1])
        invariant
            i <= j <= v.len(),
            t == v@.skip(i as int),
            trim_end_chars(t) == trim_end_chars(v@.subrange(i as int, j as int)),
        decreases j,
    {
        assert(v@.subrange(i as int, j as int).drop_last() =~= v@.subrange(i as int, j - 1));
        j -= 1;
    }
    assert(v@.subrange(i as int, v.len() as int) =~= t);
    sub_vec(v, i, j)
}

/// `s.trim()` as an owned string.
pub fn trim(s: &str) -> (r: String)
    ensures
        r@ == trim_chars(s@),
{
    let v = chars_of(s);
    let t = trim_vec(&v);
    string_of(&t)
}

} // verus!

verus! {

// ───────────────────────────── Laws ───────────────────────────────────────

/// The decimal representation of `n` is a non-empty string of digits that
/// denotes `n`.
pub proof fn lemma_decimal_digits(n: nat)
    ensures
        decimal(n).len() > 0,
        all_digits(decimal(n)),
        digits_value(decimal(n)) == n,
    decreases n,
{
    if n < 10 {
        assert(digits_value(decimal(n).drop_last()) == 0) by {
            assert(decimal(n).drop_last() =~= Seq::<char>::empty());
        }
    } else {
        lemma_decimal_digits(n / 10);
        let d = decimal(n);
        assert(d.drop_last() =~= decimal(n / 10));
        assert forall|i: int| 0 <= i < d.len() implies is_digit(#[trigger] d[i]) by {
            if i < d.len() - 1 {
                assert(d[i] == decimal(n / 10)[i]);
            }
        }
    }
}

/// Text that starts and ends with a non-whitespace character is its own trim.
pub proof fn lemma_trim_unchanged(s: Seq<char>)
    requires
        s.len() > 0,
        !is_ws(s[0]),
        !is_ws(s.last()),
    ensures
        trim_chars(s) == s,
{
}

/// A number written in decimal reads back as the same number: what
/// `generate_sysctl_config` writes for a setting, `read_sysctl_value`
/// (`trim().parse().unwrap_or(0)`) gives back.
pub proof fn law_decimal_reads_back(n: u32)
    ensures
        parse_unsigned(decimal(n as nat), u32::MAX as nat) == Some(n as nat),
        u32_or_zero(decimal(n as nat)) == n,
        u64_or_zero(decimal(n as nat)) == n,
{
    lemma_decimal_digits(n as nat);
    let d = decimal(n as nat);
    assert(is_digit(d[0]));
    assert(is_digit(d.last()));
    lemma_trim_unchanged(d);
}

/// Trimming twice trims no more than trimming once.
pub proof fn law_trim_idempotent(s: Seq<char>)
    ensures
        trim_chars(trim_chars(s)) == trim_chars(s),
{
    lemma_trim_start_bare(s);
    lemma_trim_end_bare(trim_start_chars(s));
    let t = trim_chars(s);
    if t.len() > 0 {
        lemma_trim_end_keeps_first(trim_start_chars(s));
        lemma_trim_unchanged(t);
    }
}

/// Trimming the start leaves no whitespace in front.
pub proof fn lemma_trim_start_bare(s: Seq<char>)
    ensures
        trim_start_chars(s).len() > 0 ==> !is_ws(trim_start_chars(s)[0]),
    decreases s.len(),
{
    if s.len() > 0 && is_ws(s[0]) {
        lemma_trim_start_bare(s.drop_first());
    }
}

/// Trimming the end leaves no whitespace behind.
pub proof fn lemma_trim_end_bare(s: Seq<char>)
    ensures
        trim_end_chars(s).len() > 0 ==> !is_ws(trim_end_chars(s).last()),
    decreases s.len(),
{
    if s.len() > 0 && is_ws(s.last()) {
        lemma_trim_end_bare(s.drop_last());
    }
}

/// Trimming the end keeps the first character when something is left.
pub proof fn lemma_trim_end_keeps_first(s: Seq<char>)
    ensures
        trim_end_chars(s).len() > 0 ==> trim_end_chars(s)[0] == s[0],
    decreases s.len(),
{
    if s.len() > 0 && is_ws(s.last()) {
        lemma_trim_end_keeps_first(s.drop_last());
    }
}

/// What `ws_state` completes is made of non-empty words without whitespace,
/// and the word being read has no whitespace.
proof fn lemma_ws_state_words(s: Seq<char>)
    ensures
        forall|k: int|
            0 <= k < ws_state(s).0.len() ==> #[trigger] ws_state(s).0[k].len() > 0 && forall|
                j: int,
            | 0 <= j < ws_state(s).0[k].len() ==> !is_ws(ws_state(s).0[k][j]),
        forall|j: int| 0 <= j < ws_state(s).1.len() ==> !is_ws(#[trigger] ws_state(s).1[j]),
    decreases s.len(),
{
    if s.len() > 0 {
        lemma_ws_state_words(s.drop_last());
        let (done, cur) = ws_state(s.drop_last());
        let (d2, c2) = ws_state(s);
        if is_ws(s.last()) {
            if cur.len() > 0 {
                assert(d2 == done.push(cur));
                assert forall|k: int| 0 <= k < d2.len() implies #[trigger] d2[k].len() > 0 && forall|
                    j: int,
                | 0 <= j < d2[k].len() ==> !is_ws(d2[k][j]) by {
                    if k < done.len() {
                        assert(d2[k] == done[k]);
                    }
                }
            }
        } else {
            assert(c2 == cur.push(s.last()));
            assert forall|j: int| 0 <= j < c2.len() implies !is_ws(#[trigger] c2[j]) by {
                if j < cur.len() {
                    assert(c2[j] == cur[j]);
                }
            }
        }
    }
}

/// Every word of `split_whitespace` is non-empty and holds no whitespace.
pub proof fn law_words_are_bare(s: Seq<char>)
    ensures
        forall|k: int|
            0 <= k < words(s).len() ==> #[trigger] words(s)[k].len() > 0 && forall|j: int|
                0 <= j < words(s)[k].len() ==> !is_ws(words(s)[k][j]),
{
    lemma_ws_state_words(s);
}

/// What `line_state` holds contains no line break.
proof fn lemma_line_state_no_newline(s: Seq<char>)
    ensures
        forall|k: int, j: int|
            0 <= k < line_state(s).0.len() && 0 <= j < line_state(s).0[k].len() ==> #[trigger] line_state(s).0[k][j]
                != '\n',
        forall|j: int| 0 <= j < line_state(s).1.len() ==> #[trigger] line_state(s).1[j] != '\n',
    decreases s.len(),
{
    if s.len() > 0 {
        lemma_line_state_no_newline(s.drop_last());
        let (done, cur) = line_state(s.drop_last());
        if s.last() == '\n' {
            let c = strip_cr(cur);
            assert forall|j: int| 0 <= j < c.len() implies c[j] != '\n' by {
                assert(c[j] == cur[j]);
            }
        }
    }
}

/// No line of `str::lines` holds a line break.
pub proof fn law_lines_have_no_newline(s: Seq<char>)
    ensures
        forall|k: int, j: int|
            0 <= k < lines(s).len() && 0 <= j < lines(s)[k].len() ==> #[trigger] lines(s)[k][j]
                != '\n',
{
    lemma_line_state_no_newline(s);
}

} // verus!
