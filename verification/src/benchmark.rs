//! Benchmark output: the scores printed by `sysbench`, as text.
use vstd::prelude::*;
use crate::text::occurs_at;

verus! {

#[verifier::external_type_specification]
#[verifier::external_body]
pub struct ExRegex(regex::Regex);

/// Whether the regular expression `pattern` compiles (`regex::Regex::new`
/// returns `Ok`); it depends on the pattern text alone.
pub uninterp spec fn regex_compiles(pattern: Seq<char>) -> bool;

/// The text of capture group 1 in the leftmost-first match of the regular
/// expression `pattern` in `hay` (`regex::Regex::captures`, then group 1);
/// `None` when there is no match or group 1 did not take part in it.
pub uninterp spec fn regex_first_capture(pattern: Seq<char>, hay: Seq<char>) -> Option<Seq<char>>;

/// A compiled regular expression together with the pattern it was compiled
/// from.
pub struct CompiledPattern {
    re: regex::Regex,
    pattern: String,
}

impl CompiledPattern {
    /// The pattern the expression was compiled from.
    pub closed spec fn source(&self) -> Seq<char> {
        self.pattern@
    }
}

/// The regular expression `pattern` compiled (`regex::Regex::new`), or
/// `None` when it does not compile.
#[verifier::external_body]
fn compile_regex(pattern: &str) -> (r: Option<CompiledPattern>)
    ensures
        r is Some <==> regex_compiles(pattern@),
        r matches Some(c) ==> c.source() == pattern@,
{
    let re = regex::Regex::new(pattern).ok()?;
    Some(CompiledPattern { re, pattern: pattern.to_string() })
}

/// The text of capture group 1 in the leftmost-first match of `re` in
/// `hay` (`regex::Regex::captures`). A capture is a span of the haystack,
/// so the text occurs in `hay`.
#[verifier::external_body]
fn first_group(re: &CompiledPattern, hay: &str) -> (r: Option<String>)
    ensures
        match r {
            Some(t) => regex_first_capture(re.source(), hay@) == Some(t@),
            None => regex_first_capture(re.source(), hay@) is None,
        },
        r matches Some(t) ==> exists|i: int| occurs_at(hay@, t@, i),
{
    let caps = re.re.captures(hay)?;
    let group = caps.get(1)?;
    Some(group.as_str().to_string())
}

/// The pattern of the `events per second:` figure of `sysbench cpu`.
pub open spec fn cpu_score_pattern() -> Seq<char> {
    "events per second:\\s+([\\d.]+)"@
}

/// The pattern of the `MiB/sec` figure of `sysbench memory`.
pub open spec fn memory_score_pattern() -> Seq<char> {
    "([\\d.]+)\\s+MiB/sec"@
}

/// The capture of `pattern` in `hay`, when the pattern compiles.
pub open spec fn score_text(pattern: Seq<char>, hay: Seq<char>) -> Option<Seq<char>> {
    if regex_compiles(pattern) {
        regex_first_capture(pattern, hay)
    } else {
        None
    }
}

/// The events per second that `sysbench cpu` printed, as text: the number
/// after `events per second:`; `None` when there is none. The text occurs
/// in the output.
pub fn sysbench_cpu_score(stdout: &str) -> (r: Option<String>)
    ensures
        match r {
            Some(t) => score_text(cpu_score_pattern(), stdout@) == Some(t@),
            None => score_text(cpu_score_pattern(), stdout@) is None,
        },
        r matches Some(t) ==> exists|i: int| occurs_at(stdout@, t@, i),
{
    let re = compile_regex("events per second:\\s+([\\d.]+)")?;
    first_group(&re, stdout)
}

/// The memory bandwidth that `sysbench memory` printed, as text: the number
/// before `MiB/sec`; `None` when there is none. The text occurs in the
/// output.
pub fn sysbench_memory_score(stdout: &str) -> (r: Option<String>)
    ensures
        match r {
            Some(t) => score_text(memory_score_pattern(), stdout@) == Some(t@),
            None => score_text(memory_score_pattern(), stdout@) is None,
        },
        r matches Some(t) ==> exists|i: int| occurs_at(stdout@, t@, i),
{
    let re = compile_regex("([\\d.]+)\\s+MiB/sec")?;
    first_group(&re, stdout)
}

} // verus!
